//! The single-processor execution state: the currently running task and the
//! ready queue, with the dispatch step that moves a selected task from
//! `Ready` to `Running` and records its first scheduling time.

use vstd::prelude::*;

use crate::manager::advance_stride;
use crate::manager::is_min_stride_first;
use crate::manager::TaskManager;
use crate::task::status_transition_ok;
use crate::task::TaskControlBlock;
use crate::task::TaskStatus;

verus! {

/// The task as it looks right after being handed the processor: `Running`,
/// with its first-scheduled time recorded if it never ran before.
pub open spec fn spec_dispatch(t: TaskControlBlock, now: usize) -> TaskControlBlock {
    TaskControlBlock {
        task_status: TaskStatus::Running,
        task_time: if t.task_time == 0 {
            now
        } else {
            t.task_time
        },
        ..t
    }
}

/// The task as it looks when it gives the processor back: `Ready`, all else
/// untouched.
pub open spec fn spec_set_ready(t: TaskControlBlock) -> TaskControlBlock {
    TaskControlBlock { task_status: TaskStatus::Ready, ..t }
}

/// The kernel's scheduling state: one optional running task and the ready
/// queue, constructed explicitly at boot and owned by the trap-dispatch
/// loop.
pub struct Kernel {
    /// The stride scheduler's ready queue.
    pub manager: TaskManager,
    /// The task currently holding the processor.
    pub current: Option<TaskControlBlock>,
}

impl Kernel {
    /// Scheduler invariant: queued tasks are well formed and `Ready`; the
    /// current task, when there is one, is well formed and `Running`.
    pub open spec fn wf(self) -> bool {
        &&& self.manager.wf()
        &&& forall|i: int| 0 <= i < self.manager.ready_queue@.len() ==> (
        #[trigger] self.manager.ready_queue@[i]).task_status == TaskStatus::Ready
        &&& match self.current {
            Some(t) => t.wf() && t.task_status == TaskStatus::Running,
            None => true,
        }
    }

    /// A kernel with no tasks at all.
    pub fn new() -> (r: Kernel)
        ensures
            r.wf(),
            r.manager.ready_queue@ == Seq::<TaskControlBlock>::empty(),
            r.current is None,
    {
        Kernel { manager: TaskManager::new(), current: None }
    }

    /// Enqueues a freshly created or resumed task.
    pub fn add_ready_task(&mut self, task: TaskControlBlock)
        requires
            old(self).wf(),
            task.wf(),
            task.task_status == TaskStatus::Ready,
        ensures
            final(self).wf(),
            final(self).manager.ready_queue@ == old(self).manager.ready_queue@.push(task),
            final(self).current == old(self).current,
    {
        self.manager.add(task);
    }

    /// Hands the processor to the ready task with the smallest stride, if
    /// any: the selected task leaves the queue, turns `Running`, and its
    /// first-scheduled time is recorded if unset. Reports whether a task was
    /// dispatched; with an empty queue the processor goes idle.
    pub fn run_next(&mut self, now: usize) -> (r: bool)
        requires
            old(self).wf(),
            old(self).current is None,
        ensures
            final(self).wf(),
            r <==> old(self).manager.ready_queue@.len() != 0,
            !r ==> final(self).current is None && final(self).manager.ready_queue@ == old(
                self,
            ).manager.ready_queue@,
            r ==> status_transition_ok(TaskStatus::Ready, TaskStatus::Running),
            r ==> exists|i: int|
                {
                    &&& #[trigger] is_min_stride_first(old(self).manager.ready_queue@, i)
                    &&& final(self).current == Some(
                        spec_dispatch(advance_stride(old(self).manager.ready_queue@[i]), now),
                    )
                    &&& final(self).manager.ready_queue@ == old(self).manager.ready_queue@.remove(
                        i,
                    )
                },
    {
        match self.manager.fetch() {
            None => false,
            Some(mut task) => {
                task.task_status = TaskStatus::Running;
                if task.task_time == 0 {
                    task.task_time = now;
                }
                self.current = Some(task);
                true
            }
        }
    }
}

} // verus!
