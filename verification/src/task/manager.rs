//! The ready queue: tasks waiting to run, taken out first in, first out.
use vstd::prelude::*;

use super::task::TaskControlBlock;

verus! {

/// `t` after it has been fetched once more: its stride advanced by
/// `big_stride / priority`.
pub open spec fn strode(t: TaskControlBlock, big_stride: usize) -> TaskControlBlock {
    TaskControlBlock {
        task_stride: (t.task_stride + big_stride / t.task_priority) as usize,
        ..t
    }
}

/// Fetching from `tasks` neither divides by zero nor overflows: the task
/// that comes out first has a priority and room for its stride to grow.
pub open spec fn fetch_ok(tasks: Seq<TaskControlBlock>, big_stride: usize) -> bool {
    tasks.len() > 0 ==> {
        &&& tasks[0].task_priority > 0
        &&& tasks[0].task_stride + big_stride / tasks[0].task_priority <= usize::MAX
    }
}

/// The tasks that are ready to run, a simple FIFO scheduler.
pub struct TaskManager {
    ready_queue: Vec<TaskControlBlock>,
    big_stride: usize,
}

impl TaskManager {
    /// The waiting tasks, the one added first at the front.
    pub closed spec fn queue(&self) -> Seq<TaskControlBlock> {
        self.ready_queue@
    }

    pub closed spec fn big_stride(&self) -> usize {
        self.big_stride
    }

    pub fn new(big_stride: usize) -> (r: Self)
        ensures
            r.queue() == Seq::<TaskControlBlock>::empty(),
            r.big_stride() == big_stride,
    {
        let r = Self { ready_queue: Vec::new(), big_stride };
        assert(r.queue() =~= Seq::<TaskControlBlock>::empty());
        r
    }

    pub fn len(&self) -> (r: usize)
        ensures
            r == self.queue().len(),
    {
        self.ready_queue.len()
    }

    /// Puts `task` at the back of the queue.
    pub fn add(&mut self, task: TaskControlBlock)
        ensures
            final(self).queue() == old(self).queue().push(task),
            final(self).big_stride() == old(self).big_stride(),
    {
        self.ready_queue.push(task);
    }

    /// Whether `fetch` can be made: the front task, if any, has a priority
    /// and room for its stride to grow.
    pub fn fetch_is_safe(&self) -> (r: bool)
        ensures
            r == fetch_ok(self.queue(), self.big_stride()),
    {
        if self.ready_queue.len() == 0 {
            return true;
        }
        let t = self.ready_queue[0];
        t.task_priority > 0 && t.task_stride <= usize::MAX - self.big_stride / t.task_priority
    }

    /// Takes out the task that was added first and advances its stride;
    /// `None` when the queue is empty.
    pub fn fetch(&mut self) -> (r: Option<TaskControlBlock>)
        requires
            fetch_ok(old(self).queue(), old(self).big_stride()),
        ensures
            final(self).big_stride() == old(self).big_stride(),
            old(self).queue().len() == 0 ==> r is None && final(self).queue() == old(self).queue(),
            old(self).queue().len() > 0 ==> r == Some(strode(old(self).queue()[0], old(self).big_stride()))
                && final(self).queue() == old(self).queue().drop_first(),
    {
        if self.ready_queue.len() == 0 {
            return None;
        }
        let mut task = self.ready_queue.remove(0);
        task.task_stride = task.task_stride + self.big_stride / task.task_priority;
        assert(self.ready_queue@ =~= old(self).ready_queue@.drop_first());
        Some(task)
    }
}

} // verus!
