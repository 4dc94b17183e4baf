//! The shared pending-task queue.
//!
//! A pool serializes every mutation of this queue behind one lock; the lock
//! lives in the unverified shell, so the queue itself is a plain sequential
//! structure. It supports both removal disciplines the pool family uses:
//! oldest-first (fair across submission order) and newest-first (better cache
//! locality for batch-local data). Callers must not depend on a global order
//! across tasks submitted from different call sites.

use vstd::prelude::*;

verus! {

/// An ordered collection of pending tasks. Its view is the sequence of queued
/// items, oldest first.
pub struct TaskQueue<T> {
    items: Vec<T>,
}

impl<T> View for TaskQueue<T> {
    type V = Seq<T>;

    closed spec fn view(&self) -> Seq<T> {
        self.items@
    }
}

impl<T> TaskQueue<T> {
    /// A queue with nothing pending.
    pub fn new() -> (q: TaskQueue<T>)
        ensures
            q@ === Seq::<T>::empty(),
    {
        TaskQueue { items: Vec::new() }
    }

    /// How many tasks are pending.
    pub fn len(&self) -> (n: usize)
        ensures
            n == self@.len(),
    {
        self.items.len()
    }

    /// True exactly when nothing is pending.
    pub fn is_empty(&self) -> (r: bool)
        ensures
            r == (self@.len() == 0),
    {
        self.items.len() == 0
    }

    /// Pre-allocates room for `additional` more tasks, so that a bulk
    /// submission does not regrow the backing storage under the lock.
    pub fn reserve(&mut self, additional: usize)
        ensures
            final(self)@ === old(self)@,
    {
        self.items.reserve(additional);
    }

    /// Appends one task after everything already pending.
    pub fn push_back(&mut self, task: T)
        ensures
            final(self)@ === old(self)@.push(task),
    {
        self.items.push(task);
    }

    /// Removes and returns the oldest pending task (the fair, first-in
    /// first-out discipline), or `None` when nothing is pending.
    pub fn pop_front(&mut self) -> (r: Option<T>)
        ensures
            old(self)@.len() == 0 ==> r is None && final(self)@ === old(self)@,
            old(self)@.len() > 0 ==> r === Some(old(self)@[0]) && final(self)@ === old(
                self,
            )@.drop_first(),
    {
        if self.items.len() == 0 {
            None
        } else {
            let t = self.items.remove(0);
            proof {
                assert(self.items@ =~= old(self).items@.drop_first());
            }
            Some(t)
        }
    }

    /// Removes and returns the most recently added pending task (the
    /// last-in first-out discipline), or `None` when nothing is pending.
    pub fn pop_back(&mut self) -> (r: Option<T>)
        ensures
            old(self)@.len() == 0 ==> r is None && final(self)@ === old(self)@,
            old(self)@.len() > 0 ==> r === Some(old(self)@.last()) && final(self)@ === old(
                self,
            )@.drop_last(),
    {
        self.items.pop()
    }
}

} // verus!
