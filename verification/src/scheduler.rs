//! The cooperative task scheduler's queue discipline.
//!
//! One logical thread drives rendering and scheduled tasks: work is
//! spawned as an opaque task handle and resumed in first-in, first-out
//! order when the host's per-frame callback drains the queue. The shell
//! owns the futures themselves and polls one handle at a time.

use vstd::prelude::*;

verus! {

/// A single-threaded run queue of pending task handles.
pub struct Scheduler {
    pub queue: Vec<u64>,
    pub next_task: u64,
}

impl Scheduler {
    /// Handles already queued stay below the allocator's next value.
    pub open spec fn wf(&self) -> bool {
        forall|i: int| 0 <= i < self.queue@.len() ==> #[trigger] self.queue@[i] < self.next_task
    }

    /// An empty scheduler.
    pub fn new() -> (r: Scheduler)
        ensures
            r.wf(),
            r.queue@.len() == 0,
            r.next_task == 0,
    {
        Scheduler { queue: Vec::new(), next_task: 0 }
    }

    /// Enqueues one unit of work; its fresh handle is returned so the
    /// shell can bind it to a suspended operation.
    pub fn spawn(&mut self) -> (t: u64)
        requires
            old(self).wf(),
            old(self).next_task < u64::MAX,
        ensures
            final(self).wf(),
            t == old(self).next_task,
            final(self).next_task == t + 1,
            final(self).queue@ == old(self).queue@.push(t),
    {
        let t = self.next_task;
        self.next_task = t + 1;
        self.queue.push(t);
        t
    }

    /// Re-queues a task that suspended again; it runs on a later tick.
    pub fn requeue(&mut self, t: u64)
        requires
            old(self).wf(),
            t < old(self).next_task,
        ensures
            final(self).wf(),
            final(self).next_task == old(self).next_task,
            final(self).queue@ == old(self).queue@.push(t),
    {
        self.queue.push(t);
    }

    /// One frame tick: hands every currently queued handle back in the
    /// order spawned and leaves the queue empty. Work spawned while the
    /// batch runs waits for the next tick.
    pub fn tick(&mut self) -> (batch: Vec<u64>)
        requires
            old(self).wf(),
        ensures
            final(self).wf(),
            final(self).next_task == old(self).next_task,
            final(self).queue@.len() == 0,
            batch@ == old(self).queue@,
    {
        let mut batch: Vec<u64> = Vec::new();
        core::mem::swap(&mut batch, &mut self.queue);
        batch
    }
}

} // verus!
