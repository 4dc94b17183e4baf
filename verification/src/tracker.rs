//! The pool's bookkeeping protocol: what is queued, executing, completed,
//! whether shutdown was signalled, and how many workers have exited.
//!
//! A running pool distributes this state over a locked queue, an atomic
//! executing count, an atomic done flag and the liveness of its threads. The
//! tracker gathers it in one place, one operation per protocol event, each
//! with an exact contract. Every operation preserves the well-formedness
//! invariant [`PoolTracker::wf`], so the invariant — and everything proved
//! from it at the end of this module — holds after any interleaving of
//! submissions, takes, completions and shutdown steps, in whatever order
//! concurrent callers perform them.
//!
//! Late submissions have a defined outcome here: once shutdown has been
//! signalled, a submission is rejected and the tracker is unchanged.

use vstd::prelude::*;

verus! {

/// One schedulable unit. `id` is its submission number; `weight` is how many
/// work items its body covers: one for a singly submitted task, the batch
/// length for a chunked one.
#[derive(Clone, Copy, PartialEq, Eq, Structural, Debug)]
pub struct TaskRec {
    pub id: u64,
    pub weight: u64,
}

/// The work items covered by a sequence of tasks.
pub open spec fn spec_items(s: Seq<TaskRec>) -> int
    decreases s.len(),
{
    if s.len() == 0 {
        0
    } else {
        spec_items(s.drop_last()) + s.last().weight
    }
}

proof fn lemma_items_nonneg(s: Seq<TaskRec>)
    ensures
        spec_items(s) >= 0,
    decreases s.len(),
{
    if s.len() > 0 {
        lemma_items_nonneg(s.drop_last());
    }
}

proof fn lemma_items_push(s: Seq<TaskRec>, t: TaskRec)
    ensures
        spec_items(s.push(t)) == spec_items(s) + t.weight,
{
    assert(s.push(t).drop_last() =~= s);
}

proof fn lemma_items_remove(s: Seq<TaskRec>, i: int)
    requires
        0 <= i < s.len(),
    ensures
        spec_items(s.remove(i)) == spec_items(s) - s[i].weight,
    decreases s.len(),
{
    if i == s.len() - 1 {
        assert(s.remove(i) =~= s.drop_last());
    } else {
        assert(s.remove(i).drop_last() =~= s.drop_last().remove(i));
        assert(s.remove(i).last() == s.last());
        lemma_items_remove(s.drop_last(), i);
    }
}

/// The fixed-size worker pool's shared bookkeeping, one field per shared
/// value of the running pool: the pending queue, the tasks inside a worker,
/// the finished tasks, the full submission history, the shutdown flag and the
/// count of exited workers.
pub struct PoolTracker {
    worker_count: usize,
    fifo: bool,
    queue: Vec<TaskRec>,
    executing: Vec<TaskRec>,
    completed: Vec<TaskRec>,
    submitted: Vec<TaskRec>,
    terminated: usize,
    total_items: u64,
    completed_items: u64,
    done: bool,
}

impl PoolTracker {
    /// How many worker threads the pool was built with.
    pub closed spec fn spec_worker_count(&self) -> int {
        self.worker_count as int
    }

    /// Oldest-first removal when true, newest-first otherwise.
    pub closed spec fn spec_fifo(&self) -> bool {
        self.fifo
    }

    /// The pending tasks, oldest first.
    pub closed spec fn spec_queue(&self) -> Seq<TaskRec> {
        self.queue@
    }

    /// The tasks currently inside a worker's invocation.
    pub closed spec fn spec_executing(&self) -> Seq<TaskRec> {
        self.executing@
    }

    /// The finished tasks, in completion order.
    pub closed spec fn spec_completed(&self) -> Seq<TaskRec> {
        self.completed@
    }

    /// Every task ever accepted, in submission order; task `i` has id `i`.
    pub closed spec fn spec_submitted(&self) -> Seq<TaskRec> {
        self.submitted@
    }

    /// How many workers have left their loop.
    pub closed spec fn spec_terminated(&self) -> int {
        self.terminated as int
    }

    /// Work items accepted so far.
    pub closed spec fn spec_total_items(&self) -> int {
        self.total_items as int
    }

    /// Work items of finished tasks.
    pub closed spec fn spec_completed_items(&self) -> int {
        self.completed_items as int
    }

    /// Whether shutdown has been signalled (written once, false to true).
    pub closed spec fn spec_done(&self) -> bool {
        self.done
    }

    /// Nothing queued and nothing executing: all accepted work is finished.
    pub open spec fn spec_drained(&self) -> bool {
        self.spec_queue().len() == 0 && self.spec_executing().len() == 0
    }

    /// The protocol invariant. Every task accepted is in exactly one of
    /// queued, executing or completed; ids are the submission numbers; item
    /// counts add up; workers executing or exited never outnumber the pool;
    /// and a worker exits only after shutdown was signalled with the queue
    /// drained.
    pub open spec fn wf(&self) -> bool {
        &&& 1 <= self.spec_worker_count()
        &&& self.spec_executing().len() + self.spec_terminated() <= self.spec_worker_count()
        &&& self.spec_queue().to_multiset().add(self.spec_executing().to_multiset()).add(
            self.spec_completed().to_multiset(),
        ) == self.spec_submitted().to_multiset()
        &&& self.spec_submitted().len() <= u64::MAX
        &&& forall|i: int|
            0 <= i < self.spec_submitted().len() ==> (#[trigger] self.spec_submitted()[i]).id
                == i as u64
        &&& spec_items(self.spec_queue()) + spec_items(self.spec_executing()) + spec_items(
            self.spec_completed(),
        ) == self.spec_total_items()
        &&& spec_items(self.spec_submitted()) == self.spec_total_items()
        &&& spec_items(self.spec_completed()) == self.spec_completed_items()
        &&& forall|i: int| 0 <= i < self.spec_queue().len() ==> (#[trigger] self.spec_queue()[i]).weight >= 1
        &&& forall|i: int|
            0 <= i < self.spec_executing().len() ==> (#[trigger] self.spec_executing()[i]).weight
                >= 1
        &&& !self.spec_done() ==> self.spec_terminated() == 0
        &&& self.spec_terminated() > 0 ==> self.spec_done() && self.spec_queue().len() == 0
    }

    /// A fresh pool's bookkeeping: nothing submitted, nothing running, no
    /// shutdown. A pool with zero workers would never drain its queue, so a
    /// positive worker count is demanded of the caller.
    pub fn new(worker_count: usize, fifo: bool) -> (t: PoolTracker)
        requires
            worker_count >= 1,
        ensures
            t.wf(),
            t.spec_worker_count() == worker_count,
            t.spec_fifo() == fifo,
            t.spec_queue() === Seq::<TaskRec>::empty(),
            t.spec_executing() === Seq::<TaskRec>::empty(),
            t.spec_completed() === Seq::<TaskRec>::empty(),
            t.spec_submitted() === Seq::<TaskRec>::empty(),
            t.spec_terminated() == 0,
            t.spec_total_items() == 0,
            t.spec_completed_items() == 0,
            !t.spec_done(),
    {
        let t = PoolTracker {
            worker_count,
            fifo,
            queue: Vec::new(),
            executing: Vec::new(),
            completed: Vec::new(),
            submitted: Vec::new(),
            terminated: 0,
            total_items: 0,
            completed_items: 0,
            done: false,
        };
        proof {
            assert(t.spec_queue().to_multiset().add(t.spec_executing().to_multiset()).add(
                t.spec_completed().to_multiset(),
            ) =~= t.spec_submitted().to_multiset()) by {
                broadcast use vstd::seq_lib::group_to_multiset_ensures;

            }
        }
        t
    }

    /// One task enters the queue — unless shutdown has begun, in which case
    /// the submission is rejected and nothing changes. On acceptance the
    /// returned id is the task's submission number.
    pub fn record_submit(&mut self, weight: u64) -> (r: Option<u64>)
        requires
            old(self).wf(),
            weight >= 1,
            old(self).spec_total_items() + weight <= u64::MAX,
            old(self).spec_submitted().len() < u64::MAX,
        ensures
            final(self).wf(),
            old(self).spec_done() ==> r is None && *final(self) == *old(self),
            !old(self).spec_done() ==> r == Some(old(self).spec_submitted().len() as u64)
                && final(self).spec_queue() == old(self).spec_queue().push(
                (TaskRec { id: old(self).spec_submitted().len() as u64, weight }),
            ) && final(self).spec_submitted() == old(self).spec_submitted().push(
                (TaskRec { id: old(self).spec_submitted().len() as u64, weight }),
            ) && final(self).spec_total_items() == old(self).spec_total_items() + weight
                && final(self).spec_executing() == old(self).spec_executing()
                && final(self).spec_completed() == old(self).spec_completed()
                && final(self).spec_completed_items() == old(self).spec_completed_items()
                && final(self).spec_terminated() == old(self).spec_terminated()
                && final(self).spec_worker_count() == old(self).spec_worker_count()
                && final(self).spec_fifo() == old(self).spec_fifo()
                && !final(self).spec_done(),
    {
        if self.done {
            return None;
        }
        let id = self.submitted.len() as u64;
        let rec = TaskRec { id, weight };
        proof {
            broadcast use vstd::seq_lib::group_to_multiset_ensures;

            lemma_items_push(self.queue@, rec);
            lemma_items_push(self.submitted@, rec);
            assert(self.queue@.push(rec).to_multiset().add(self.executing@.to_multiset()).add(
                self.completed@.to_multiset(),
            ) =~= self.submitted@.push(rec).to_multiset()) by {
                broadcast use vstd::multiset::group_multiset_axioms;

            }
        }
        self.queue.push(rec);
        self.submitted.push(rec);
        self.total_items = self.total_items + weight;
        Some(id)
    }

    /// Shutdown is signalled: the done flag goes up (idempotently) and
    /// nothing else changes. From here on submissions are rejected.
    pub fn record_shutdown(&mut self)
        requires
            old(self).wf(),
        ensures
            final(self).wf(),
            final(self).spec_done(),
            final(self).spec_queue() == old(self).spec_queue(),
            final(self).spec_executing() == old(self).spec_executing(),
            final(self).spec_completed() == old(self).spec_completed(),
            final(self).spec_submitted() == old(self).spec_submitted(),
            final(self).spec_terminated() == old(self).spec_terminated(),
            final(self).spec_total_items() == old(self).spec_total_items(),
            final(self).spec_completed_items() == old(self).spec_completed_items(),
            final(self).spec_worker_count() == old(self).spec_worker_count(),
            final(self).spec_fifo() == old(self).spec_fifo(),
    {
        self.done = true;
    }

    /// An idle worker takes a task from the queue: the oldest under the
    /// oldest-first discipline, the newest otherwise; `None` when the queue
    /// is empty. Taking and "now executing" are one atomic step here, as they
    /// are under the pool's lock.
    pub fn record_take(&mut self) -> (r: Option<TaskRec>)
        requires
            old(self).wf(),
            old(self).spec_executing().len() + old(self).spec_terminated() < old(
                self,
            ).spec_worker_count(),
        ensures
            final(self).wf(),
            old(self).spec_queue().len() == 0 ==> r is None && *final(self) == *old(self),
            old(self).spec_queue().len() > 0 ==> r == Some(old(self).taken_task())
                && final(self).spec_queue() == old(self).queue_after_take()
                && final(self).spec_executing() == old(self).spec_executing().push(
                old(self).taken_task(),
            ) && final(self).spec_completed() == old(self).spec_completed()
                && final(self).spec_submitted() == old(self).spec_submitted()
                && final(self).spec_terminated() == old(self).spec_terminated()
                && final(self).spec_total_items() == old(self).spec_total_items()
                && final(self).spec_completed_items() == old(self).spec_completed_items()
                && final(self).spec_worker_count() == old(self).spec_worker_count()
                && final(self).spec_fifo() == old(self).spec_fifo()
                && final(self).spec_done() == old(self).spec_done(),
    {
        if self.queue.len() == 0 {
            return None;
        }
        let idx = if self.fifo {
            0
        } else {
            self.queue.len() - 1
        };
        proof {
            broadcast use vstd::seq_lib::group_to_multiset_ensures;

            lemma_items_remove(self.queue@, idx as int);
            lemma_items_push(self.executing@, self.queue@[idx as int]);
            let rec = self.queue@[idx as int];
            assert(self.queue@.remove(idx as int).to_multiset().add(
                self.executing@.push(rec).to_multiset(),
            ).add(self.completed@.to_multiset()) =~= self.submitted@.to_multiset()) by {
                broadcast use vstd::multiset::group_multiset_axioms;

            }
        }
        let rec = self.queue.remove(idx);
        self.executing.push(rec);
        proof {
            if old(self).spec_fifo() {
                assert(self.queue@ =~= old(self).spec_queue().drop_first());
            } else {
                assert(self.queue@ =~= old(self).spec_queue().drop_last());
            }
        }
        Some(rec)
    }

    /// The task the next take will return: the head of the queue under the
    /// oldest-first discipline, its tail otherwise.
    pub open spec fn taken_task(&self) -> TaskRec
        recommends
            self.spec_queue().len() > 0,
    {
        if self.spec_fifo() {
            self.spec_queue()[0]
        } else {
            self.spec_queue().last()
        }
    }

    /// What the queue holds after a successful take.
    pub open spec fn queue_after_take(&self) -> Seq<TaskRec>
        recommends
            self.spec_queue().len() > 0,
    {
        if self.spec_fifo() {
            self.spec_queue().drop_first()
        } else {
            self.spec_queue().drop_last()
        }
    }

    /// A worker's task body returned: the task at `idx` of the executing set
    /// moves to completed and its items are counted. Workers finish in any
    /// order, so the caller names the entry.
    pub fn record_finish(&mut self, idx: usize) -> (rec: TaskRec)
        requires
            old(self).wf(),
            idx < old(self).spec_executing().len(),
        ensures
            final(self).wf(),
            rec == old(self).spec_executing()[idx as int],
            final(self).spec_executing() == old(self).spec_executing().remove(idx as int),
            final(self).spec_completed() == old(self).spec_completed().push(rec),
            final(self).spec_completed_items() == old(self).spec_completed_items() + rec.weight,
            final(self).spec_queue() == old(self).spec_queue(),
            final(self).spec_submitted() == old(self).spec_submitted(),
            final(self).spec_terminated() == old(self).spec_terminated(),
            final(self).spec_total_items() == old(self).spec_total_items(),
            final(self).spec_worker_count() == old(self).spec_worker_count(),
            final(self).spec_fifo() == old(self).spec_fifo(),
            final(self).spec_done() == old(self).spec_done(),
    {
        proof {
            broadcast use vstd::seq_lib::group_to_multiset_ensures;

            let r = self.executing@[idx as int];
            lemma_items_remove(self.executing@, idx as int);
            lemma_items_push(self.completed@, r);
            // The finished task's items fit: everything still pending or
            // running is nonnegative, so the completed count stays below the
            // accepted total.
            lemma_items_nonneg(self.queue@);
            lemma_items_nonneg(self.executing@.remove(idx as int));
            assert(self.queue@.to_multiset().add(self.executing@.remove(idx as int).to_multiset())
                .add(self.completed@.push(r).to_multiset()) =~= self.submitted@.to_multiset()) by {
                broadcast use vstd::multiset::group_multiset_axioms;

            }
        }
        let rec = self.executing.remove(idx);
        self.completed.push(rec);
        self.completed_items = self.completed_items + rec.weight;
        rec
    }

    /// An idle worker observed the done flag with an empty queue and leaves
    /// its loop — in the worker state machine, the terminated state is
    /// reachable only then.
    pub fn record_worker_exit(&mut self)
        requires
            old(self).wf(),
            old(self).spec_done(),
            old(self).spec_queue().len() == 0,
            old(self).spec_executing().len() + old(self).spec_terminated() < old(
                self,
            ).spec_worker_count(),
        ensures
            final(self).wf(),
            final(self).spec_terminated() == old(self).spec_terminated() + 1,
            final(self).spec_queue() == old(self).spec_queue(),
            final(self).spec_executing() == old(self).spec_executing(),
            final(self).spec_completed() == old(self).spec_completed(),
            final(self).spec_submitted() == old(self).spec_submitted(),
            final(self).spec_total_items() == old(self).spec_total_items(),
            final(self).spec_completed_items() == old(self).spec_completed_items(),
            final(self).spec_worker_count() == old(self).spec_worker_count(),
            final(self).spec_fifo() == old(self).spec_fifo(),
            final(self).spec_done(),
    {
        self.terminated = self.terminated + 1;
    }

    /// The per-element submission protocol: `count` items become `count`
    /// tasks of one item each, queued in input order with consecutive ids —
    /// every element yields exactly one task, none skipped or duplicated.
    /// Rejected unchanged once shutdown has begun.
    pub fn record_submit_sequence(&mut self, count: usize) -> (r: bool)
        requires
            old(self).wf(),
            old(self).spec_total_items() + count <= u64::MAX,
            old(self).spec_submitted().len() + count < u64::MAX,
        ensures
            final(self).wf(),
            old(self).spec_done() ==> !r && *final(self) == *old(self),
            !old(self).spec_done() ==> r,
            !old(self).spec_done() ==> final(self).spec_queue() == old(self).spec_queue()
                + unit_tasks(old(self).spec_submitted().len() as int, count as int),
            !old(self).spec_done() ==> final(self).spec_submitted() == old(self).spec_submitted()
                + unit_tasks(old(self).spec_submitted().len() as int, count as int),
            !old(self).spec_done() ==> final(self).spec_total_items() == old(
                self,
            ).spec_total_items() + count,
            final(self).spec_executing() == old(self).spec_executing(),
            final(self).spec_completed() == old(self).spec_completed(),
            final(self).spec_completed_items() == old(self).spec_completed_items(),
            final(self).spec_terminated() == old(self).spec_terminated(),
            final(self).spec_worker_count() == old(self).spec_worker_count(),
            final(self).spec_fifo() == old(self).spec_fifo(),
            final(self).spec_done() == old(self).spec_done(),
    {
        if self.done {
            return false;
        }
        let ghost base = self.submitted@.len() as int;
        let mut k: usize = 0;
        while k < count
            invariant
                self.wf(),
                !self.spec_done(),
                k <= count,
                base == old(self).spec_submitted().len() as int,
                old(self).spec_total_items() + count <= u64::MAX,
                old(self).spec_submitted().len() + count < u64::MAX,
                self.spec_submitted().len() == base + k,
                self.spec_total_items() == old(self).spec_total_items() + k,
                self.spec_queue() == old(self).spec_queue() + unit_tasks(base, k as int),
                self.spec_submitted() == old(self).spec_submitted() + unit_tasks(base, k as int),
                self.spec_executing() == old(self).spec_executing(),
                self.spec_completed() == old(self).spec_completed(),
                self.spec_completed_items() == old(self).spec_completed_items(),
                self.spec_terminated() == old(self).spec_terminated(),
                self.spec_worker_count() == old(self).spec_worker_count(),
                self.spec_fifo() == old(self).spec_fifo(),
            decreases count - k,
        {
            let _ = self.record_submit(1);
            proof {
                let rec = (TaskRec { id: (base + k) as u64, weight: 1 });
                assert(unit_tasks(base, k as int).push(rec) =~= unit_tasks(base, k as int + 1));
                assert((old(self).spec_queue() + unit_tasks(base, k as int)).push(rec) =~= old(
                    self,
                ).spec_queue() + unit_tasks(base, k as int + 1));
                assert((old(self).spec_submitted() + unit_tasks(base, k as int)).push(rec) =~= old(
                    self,
                ).spec_submitted() + unit_tasks(base, k as int + 1));
            }
            k = k + 1;
        }
        true
    }

    /// The chunked submission protocol: `count` items become one task per
    /// batch of `chunk_size` (the last batch possibly shorter), queued in
    /// batch order with consecutive ids — batch boundaries are contiguous,
    /// non-overlapping and exhaustive, so the accepted item total grows by
    /// exactly `count`. Rejected unchanged once shutdown has begun.
    #[verifier::rlimit(50)]
    pub fn record_submit_chunked(&mut self, count: usize, chunk_size: usize) -> (r: bool)
        requires
            old(self).wf(),
            chunk_size >= 1,
            old(self).spec_total_items() + count <= u64::MAX,
            old(self).spec_submitted().len() + count < u64::MAX,
        ensures
            final(self).wf(),
            old(self).spec_done() ==> !r && *final(self) == *old(self),
            !old(self).spec_done() ==> r,
            !old(self).spec_done() ==> final(self).spec_queue() == old(self).spec_queue()
                + chunk_tasks(
                old(self).spec_submitted().len() as int,
                count as int,
                chunk_size as int,
            ),
            !old(self).spec_done() ==> final(self).spec_submitted() == old(self).spec_submitted()
                + chunk_tasks(
                old(self).spec_submitted().len() as int,
                count as int,
                chunk_size as int,
            ),
            !old(self).spec_done() ==> final(self).spec_total_items() == old(
                self,
            ).spec_total_items() + count,
            final(self).spec_executing() == old(self).spec_executing(),
            final(self).spec_completed() == old(self).spec_completed(),
            final(self).spec_completed_items() == old(self).spec_completed_items(),
            final(self).spec_terminated() == old(self).spec_terminated(),
            final(self).spec_worker_count() == old(self).spec_worker_count(),
            final(self).spec_fifo() == old(self).spec_fifo(),
            final(self).spec_done() == old(self).spec_done(),
    {
        if self.done {
            return false;
        }
        let ghost base = self.submitted@.len() as int;
        let ghost c = chunk_size as int;
        let ghost n = count as int;
        let bounds = crate::chunking::chunk_bounds(count, chunk_size);
        proof {
            // There are never more batches than items: every batch is
            // nonempty, and the last one starts inside the input.
            if bounds@.len() > 0 {
                let len = bounds@.len() as int;
                assert(len - 1 <= (len - 1) * c) by (nonlinear_arith)
                    requires
                        c >= 1,
                        len >= 1,
                ;
                assert(bounds@[len - 1].0 < n);
            }
        }
        let mut k: usize = 0;
        while k < bounds.len()
            invariant
                self.wf(),
                !self.spec_done(),
                k <= bounds@.len(),
                chunk_size >= 1,
                c == chunk_size as int,
                n == count as int,
                base == old(self).spec_submitted().len() as int,
                old(self).spec_total_items() + count <= u64::MAX,
                old(self).spec_submitted().len() + count < u64::MAX,
                bounds@.len() == crate::chunking::spec_chunk_count(n, c),
                bounds@.len() <= count,
                forall|i: int|
                    0 <= i < bounds@.len() ==> ((#[trigger] bounds@[i]).0
                        == crate::chunking::spec_chunk_start(i, c) && bounds@[i].1
                        == crate::chunking::spec_chunk_end(i, c, n)),
                forall|i: int| 0 <= i < bounds@.len() ==> (#[trigger] bounds@[i]).0 < bounds@[i].1 <= n,
                self.spec_submitted().len() == base + k,
                self.spec_total_items() == old(self).spec_total_items() + (if k == 0 {
                    0int
                } else {
                    bounds@[k as int - 1].1 as int
                }),
                self.spec_queue() == old(self).spec_queue() + chunk_tasks(base, n, c).subrange(
                    0,
                    k as int,
                ),
                self.spec_submitted() == old(self).spec_submitted() + chunk_tasks(
                    base,
                    n,
                    c,
                ).subrange(0, k as int),
                self.spec_executing() == old(self).spec_executing(),
                self.spec_completed() == old(self).spec_completed(),
                self.spec_completed_items() == old(self).spec_completed_items(),
                self.spec_terminated() == old(self).spec_terminated(),
                self.spec_worker_count() == old(self).spec_worker_count(),
                self.spec_fifo() == old(self).spec_fifo(),
            decreases bounds@.len() - k,
        {
            let b = bounds[k];
            let weight: u64 = (b.1 - b.0) as u64;
            proof {
                // This batch begins where the one before it ended, so the
                // accepted total so far is exactly this batch's start.
                let ki = k as int;
                if k > 0 {
                    assert(bounds@[ki].0 == crate::chunking::spec_chunk_start(ki, c));
                    assert(bounds@[ki].0 < bounds@[ki].1);
                    assert(ki * c < n);
                    assert((ki - 1 + 1) * c == ki * c);
                    assert(bounds@[ki - 1].1 == crate::chunking::spec_chunk_end(ki - 1, c, n));
                    assert(bounds@[ki - 1].1 == ki * c);
                    assert(bounds@[ki - 1].1 == bounds@[ki].0);
                } else {
                    assert(0int * c == 0) by (nonlinear_arith);
                    assert(bounds@[0].0 == crate::chunking::spec_chunk_start(0, c));
                }
                assert(self.spec_total_items() == old(self).spec_total_items() + b.0 as int);
            }
            let _ = self.record_submit(weight);
            proof {
                let rec = (TaskRec { id: (base + k) as u64, weight });
                assert(chunk_tasks(base, n, c)[k as int] == rec);
                assert(chunk_tasks(base, n, c).subrange(0, k as int).push(rec) =~= chunk_tasks(
                    base,
                    n,
                    c,
                ).subrange(0, k as int + 1));
                assert((old(self).spec_queue() + chunk_tasks(base, n, c).subrange(0, k as int)).push(
                    rec,
                ) =~= old(self).spec_queue() + chunk_tasks(base, n, c).subrange(0, k as int + 1));
                assert((old(self).spec_submitted() + chunk_tasks(base, n, c).subrange(
                    0,
                    k as int,
                )).push(rec) =~= old(self).spec_submitted() + chunk_tasks(base, n, c).subrange(
                    0,
                    k as int + 1,
                ));
            }
            k = k + 1;
        }
        proof {
            if bounds@.len() == 0 {
                assert(count == 0);
            } else {
                assert(bounds@[bounds@.len() - 1].1 == n);
            }
            assert(chunk_tasks(base, n, c).subrange(0, bounds@.len() as int) =~= chunk_tasks(
                base,
                n,
                c,
            ));
        }
        true
    }

    /// How many tasks are pending.
    pub fn pending_count(&self) -> (n: usize)
        ensures
            n == self.spec_queue().len(),
    {
        self.queue.len()
    }

    /// How many tasks are inside a worker right now.
    pub fn executing_count(&self) -> (n: usize)
        ensures
            n == self.spec_executing().len(),
    {
        self.executing.len()
    }

    /// How many tasks have finished.
    pub fn completed_count(&self) -> (n: usize)
        ensures
            n == self.spec_completed().len(),
    {
        self.completed.len()
    }

    /// How many tasks were ever accepted.
    pub fn submitted_count(&self) -> (n: usize)
        ensures
            n == self.spec_submitted().len(),
    {
        self.submitted.len()
    }

    /// How many workers have left their loop.
    pub fn terminated_count(&self) -> (n: usize)
        ensures
            n == self.spec_terminated(),
    {
        self.terminated
    }

    /// The pool's fixed worker count.
    pub fn worker_count(&self) -> (n: usize)
        ensures
            n == self.spec_worker_count(),
    {
        self.worker_count
    }

    /// Whether shutdown has been signalled.
    pub fn is_done(&self) -> (r: bool)
        ensures
            r == self.spec_done(),
    {
        self.done
    }

    /// Work items accepted so far.
    pub fn total_items(&self) -> (n: u64)
        ensures
            n == self.spec_total_items(),
    {
        self.total_items
    }

    /// Work items of finished tasks.
    pub fn completed_items(&self) -> (n: u64)
        ensures
            n == self.spec_completed_items(),
    {
        self.completed_items
    }

    /// Whether all accepted work is finished: nothing queued, nothing inside
    /// a worker. This is the counter-based completion wait's predicate.
    pub fn is_drained(&self) -> (r: bool)
        ensures
            r == self.spec_drained(),
    {
        self.queue.len() == 0 && self.executing.len() == 0
    }

    /// Whether every worker has left its loop — what the terminal join of
    /// shutdown waits for.
    pub fn all_workers_exited(&self) -> (r: bool)
        ensures
            r == (self.spec_terminated() == self.spec_worker_count()),
    {
        self.terminated == self.worker_count
    }

    /// The `i`-th finished task, in completion order.
    pub fn completed_task(&self, i: usize) -> (rec: TaskRec)
        requires
            i < self.spec_completed().len(),
        ensures
            rec == self.spec_completed()[i as int],
    {
        self.completed[i]
    }
}

/// `count` single-item tasks with consecutive ids starting at `base`.
pub open spec fn unit_tasks(base: int, count: int) -> Seq<TaskRec> {
    Seq::new(count as nat, |k: int| (TaskRec { id: (base + k) as u64, weight: 1 }))
}

/// One task per batch of the chunk partition of `count` items at chunk size
/// `c`, with consecutive ids starting at `base`; each task's weight is its
/// batch's length.
pub open spec fn chunk_tasks(base: int, count: int, c: int) -> Seq<TaskRec> {
    Seq::new(
        crate::chunking::spec_chunk_count(count, c) as nat,
        |k: int|
            (TaskRec {
                id: (base + k) as u64,
                weight: (crate::chunking::spec_chunk_end(k, c, count)
                    - crate::chunking::spec_chunk_start(k, c)) as u64,
            }),
    )
}

/// Exactly-once execution: in a well-formed pool state where every worker has
/// terminated, the completed tasks are exactly the submitted ones — each
/// submitted task appears in the completion record exactly once, never zero
/// and never multiple times, whatever order submissions, takes and finishes
/// were interleaved in.
pub proof fn lemma_exactly_once(t: &PoolTracker)
    requires
        t.wf(),
        t.spec_terminated() == t.spec_worker_count(),
    ensures
        t.spec_completed().to_multiset() == t.spec_submitted().to_multiset(),
        t.spec_completed().len() == t.spec_submitted().len(),
        forall|i: int|
            0 <= i < t.spec_submitted().len() ==> t.spec_completed().to_multiset().count(
                #[trigger] t.spec_submitted()[i],
            ) == 1,
{
    broadcast use vstd::seq_lib::group_to_multiset_ensures;
    broadcast use vstd::multiset::group_multiset_axioms;

    // Every worker exited, so none is executing and the queue is drained.
    assert(t.spec_executing().len() == 0);
    assert(t.spec_queue().len() == 0);
    assert forall|x: TaskRec|
        t.spec_completed().to_multiset().count(x) == #[trigger] t.spec_submitted().to_multiset()
            .count(x) by {
        assert(!t.spec_queue().contains(x));
        assert(!t.spec_executing().contains(x));
    }
    assert(t.spec_completed().to_multiset() =~= t.spec_submitted().to_multiset());
    assert(t.spec_completed().len() == t.spec_completed().to_multiset().len());
    assert(t.spec_submitted().len() == t.spec_submitted().to_multiset().len());
    // Submission numbers are distinct, so no task is recorded twice.
    assert(t.spec_submitted().no_duplicates()) by {
        assert forall|i: int, j: int|
            0 <= i < t.spec_submitted().len() && 0 <= j < t.spec_submitted().len() && i
                != j implies t.spec_submitted()[i] != t.spec_submitted()[j] by {
            assert(t.spec_submitted()[i].id == i as u64);
            assert(t.spec_submitted()[j].id == j as u64);
        }
    }
    t.spec_submitted().lemma_multiset_has_no_duplicates();
    assert forall|i: int|
        0 <= i < t.spec_submitted().len() implies t.spec_completed().to_multiset().count(
        #[trigger] t.spec_submitted()[i],
    ) == 1 by {
        assert(t.spec_submitted().contains(t.spec_submitted()[i]));
        assert(t.spec_submitted().to_multiset().count(t.spec_submitted()[i]) > 0);
    }
}

/// No lost work: with nothing queued and nothing executing, the completed
/// item count equals the accepted total — per-element and chunked submission,
/// in any mix and from any number of callers, lose and duplicate nothing.
pub proof fn lemma_no_lost_work(t: &PoolTracker)
    requires
        t.wf(),
        t.spec_drained(),
    ensures
        t.spec_completed_items() == t.spec_total_items(),
{
}

/// No premature completion: while any task is still inside a worker — say a
/// slow task blocked on a latch nobody has released — the pool is not drained and
/// the completed items fall short of the accepted total, even if the queue is
/// already empty. A completion wait built on [`PoolTracker::spec_drained`]
/// therefore cannot return early.
pub proof fn lemma_no_premature_completion(t: &PoolTracker)
    requires
        t.wf(),
        t.spec_executing().len() > 0,
    ensures
        !t.spec_drained(),
        t.spec_completed_items() < t.spec_total_items(),
{
    lemma_items_nonneg(t.spec_queue());
    lemma_items_remove(t.spec_executing(), 0);
    lemma_items_nonneg(t.spec_executing().remove(0));
}

/// Shutdown joins all threads: once every worker has exited, shutdown was
/// signalled, nothing is queued, nothing is executing, and every accepted
/// work item is accounted as completed.
pub proof fn lemma_shutdown_joins_all(t: &PoolTracker)
    requires
        t.wf(),
        t.spec_terminated() == t.spec_worker_count(),
    ensures
        t.spec_done(),
        t.spec_drained(),
        t.spec_completed_items() == t.spec_total_items(),
{
}

} // verus!
