//! The bounded FIFO queue between the latency-sensitive reply path and the
//! single consumer that executes analysis tasks.
//!
//! Enqueueing never blocks: a full or closed queue rejects the task, which
//! the producer drops. The consumer pulls tasks in FIFO order, one at a
//! time.

use vstd::prelude::*;
use crate::service::EnfireTask;
use crate::service::TaskModel;

verus! {

/// Process-wide default queue capacity.
pub const DEFAULT_QUEUE_CAPACITY: usize = 100;

/// Why an enqueue was rejected. The task is then dropped, never retried,
/// and the rejection is never surfaced to the proxy.
#[derive(Debug, Clone, Copy, PartialEq, Eq, Structural)]
pub enum DispatchError {
    Full,
    Closed,
}

/// The mathematical state of the dispatcher.
pub ghost struct DispatcherModel {
    pub queue: Seq<TaskModel>,
    pub capacity: int,
    pub closed: bool,
}

/// The dispatcher's bounded FIFO queue of pending tasks.
pub struct Dispatcher {
    pub queue: Vec<EnfireTask>,
    pub capacity: usize,
    pub closed: bool,
}

impl View for Dispatcher {
    type V = DispatcherModel;

    open spec fn view(&self) -> DispatcherModel {
        DispatcherModel {
            queue: self.queue.deep_view(),
            capacity: self.capacity as int,
            closed: self.closed,
        }
    }
}

/// What one enqueue attempt does: the state after it, and its outcome.
/// A closed queue rejects with `Closed`, a full one with `Full`; otherwise
/// the task is appended at the back.
pub open spec fn spec_enqueue(d: DispatcherModel, t: TaskModel) -> (
    DispatcherModel,
    Result<(), DispatchError>,
) {
    if d.closed {
        (d, Err(DispatchError::Closed))
    } else if d.queue.len() >= d.capacity {
        (d, Err(DispatchError::Full))
    } else {
        (DispatcherModel { queue: d.queue.push(t), ..d }, Ok(()))
    }
}

impl Dispatcher {
    /// An open, empty queue of the given capacity.
    pub fn new(capacity: usize) -> (d: Dispatcher)
        ensures
            d@.queue == Seq::<TaskModel>::empty(),
            d@.capacity == capacity as int,
            !d@.closed,
    {
        let d = Dispatcher { queue: Vec::new(), capacity, closed: false };
        proof {
            assert(d.queue.deep_view() =~= Seq::<TaskModel>::empty());
        }
        d
    }

    /// Non-blocking enqueue: appends the task when the queue is open and
    /// has room, and otherwise rejects it, leaving the queue unchanged.
    pub fn try_enqueue(&mut self, t: EnfireTask) -> (r: Result<(), DispatchError>)
        ensures
            final(self)@ == spec_enqueue(old(self)@, t.deep_view()).0,
            r == spec_enqueue(old(self)@, t.deep_view()).1,
    {
        if self.closed {
            return Err(DispatchError::Closed);
        }
        if self.queue.len() >= self.capacity {
            return Err(DispatchError::Full);
        }
        self.queue.push(t);
        proof {
            assert(self.queue.deep_view() =~= old(self).queue.deep_view().push(t.deep_view()));
        }
        Ok(())
    }

    /// The consumer's pull: removes and returns the oldest pending task,
    /// or nothing when the queue is empty.
    pub fn dequeue(&mut self) -> (r: Option<EnfireTask>)
        ensures
            old(self)@.queue.len() == 0 ==> r is None && final(self)@ == old(self)@,
            old(self)@.queue.len() > 0 ==> (r matches Some(t)
                && t.deep_view() == old(self)@.queue[0]
                && final(self)@ == (DispatcherModel {
                    queue: old(self)@.queue.drop_first(),
                    ..old(self)@
                })),
    {
        if self.queue.len() == 0 {
            return None;
        }
        let t = self.queue.remove(0);
        proof {
            assert(self.queue.deep_view() =~= old(self).queue.deep_view().drop_first());
        }
        Some(t)
    }

    /// Marks the producer side shut down: every later enqueue is rejected.
    pub fn close(&mut self)
        ensures
            final(self)@ == (DispatcherModel { closed: true, ..old(self)@ }),
    {
        self.closed = true;
    }

    /// How many tasks are pending.
    pub fn len(&self) -> (n: usize)
        ensures
            n as int == self@.queue.len(),
    {
        self.queue.len()
    }
}

} // verus!
