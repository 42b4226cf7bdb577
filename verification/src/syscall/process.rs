//! Process-management syscalls: yield, exit, break adjustment, anonymous
//! mapping and unmapping, time, and the task-information diagnostic. Each
//! locates the current task, performs the operation on its control block,
//! and returns `0` or a positive value on success, `-1` on any rejected
//! condition.

use vstd::prelude::*;

use crate::config::MAX_VA;
use crate::kernel::spec_dispatch;
use crate::kernel::spec_set_ready;
use crate::kernel::Kernel;
use crate::manager::advance_stride;
use crate::manager::is_min_stride_first;
use crate::mm::is_first_region_match;
use crate::mm::spec_floor_vpn;
use crate::task::spec_brk_can;
use crate::task::spec_mmap_area;
use crate::task::spec_mmap_err;
use crate::task::spec_unmap_err;
use crate::task::status_transition_ok;
use crate::task::TaskControlBlock;
use crate::task::TaskStatus;

verus! {

/// A time value split into whole seconds and the remaining microseconds.
#[derive(Clone, Copy, PartialEq, Eq, Structural, Debug)]
pub struct TimeVal {
    /// Whole seconds.
    pub sec: usize,
    /// Microseconds below one second.
    pub usec: usize,
}

/// The introspection record the task-information syscall fills.
pub struct TaskInfo {
    /// Status of the inspected task.
    pub status: TaskStatus,
    /// How often each syscall identifier was dispatched for the task.
    pub syscall_times: Vec<u32>,
    /// Total running time: now minus the first scheduling time.
    pub time: usize,
}

/// The current task gives the processor up: it turns `Ready`, rejoins the
/// tail of the ready queue, and the smallest-stride ready task (possibly the
/// same one) is dispatched. Always returns 0.
pub fn sys_yield(kernel: &mut Kernel, now: usize) -> (r: isize)
    requires
        old(kernel).wf(),
        old(kernel).current is Some,
    ensures
        final(kernel).wf(),
        r == 0,
        final(kernel).current is Some,
        match old(kernel).current {
            Some(cur) => {
                let q1 = old(kernel).manager.ready_queue@.push(spec_set_ready(cur));
                &&& status_transition_ok(cur.task_status, spec_set_ready(cur).task_status)
                &&& exists|i: int|
                    {
                        &&& #[trigger] is_min_stride_first(q1, i)
                        &&& final(kernel).current == Some(
                            spec_dispatch(advance_stride(q1[i]), now),
                        )
                        &&& final(kernel).manager.ready_queue@ == q1.remove(i)
                    }
            },
            None => true,
        },
{
    let mut task = self_take_current(kernel).unwrap();
    task.task_status = TaskStatus::Ready;
    kernel.manager.add(task);
    kernel.run_next(now);
    0
}

/// The current task exits: it turns `Exited`, leaves the scheduler for good,
/// and the next ready task, if any, is dispatched. The exited control block
/// is handed back to the caller (the trap path) for teardown; no syscall can
/// reach it any more.
pub fn sys_exit(kernel: &mut Kernel, _exit_code: i32, now: usize) -> (t: TaskControlBlock)
    requires
        old(kernel).wf(),
        old(kernel).current is Some,
    ensures
        final(kernel).wf(),
        match old(kernel).current {
            Some(cur) => {
                &&& t == (TaskControlBlock { task_status: TaskStatus::Exited, ..cur })
                &&& status_transition_ok(cur.task_status, t.task_status)
            },
            None => true,
        },
        t.task_status == TaskStatus::Exited,
        old(kernel).manager.ready_queue@.len() == 0 ==> final(kernel).current is None
            && final(kernel).manager.ready_queue@.len() == 0,
        old(kernel).manager.ready_queue@.len() != 0 ==> exists|i: int|
            {
                &&& #[trigger] is_min_stride_first(old(kernel).manager.ready_queue@, i)
                &&& final(kernel).current == Some(
                    spec_dispatch(advance_stride(old(kernel).manager.ready_queue@[i]), now),
                )
                &&& final(kernel).manager.ready_queue@
                    == old(kernel).manager.ready_queue@.remove(i)
            },
{
    let mut task = self_take_current(kernel).unwrap();
    task.task_status = TaskStatus::Exited;
    kernel.run_next(now);
    task
}

/// Maps the anonymous region `[start, start + len)` into the current task's
/// address space with permission bits `port`. Returns 0 on success, -1 when
/// the range leaves the managed address space or the task's own validation
/// rejects the request; a rejection changes nothing.
pub fn sys_mmap(kernel: &mut Kernel, start: usize, len: usize, port: usize) -> (r: isize)
    requires
        old(kernel).wf(),
        old(kernel).current is Some,
    ensures
        final(kernel).wf(),
        final(kernel).manager == old(kernel).manager,
        match old(kernel).current {
            Some(cur) => {
                let range_ok = start <= MAX_VA && len <= MAX_VA - start;
                &&& r == if range_ok && spec_mmap_err(cur.memory_set.areas@, start, len, port)
                    is None {
                    0
                } else {
                    -1isize
                }
                &&& r == 0 ==> match final(kernel).current {
                    Some(t2) => {
                        &&& TaskControlBlock::same_task_meta(t2, cur)
                        &&& t2.heap_bottom == cur.heap_bottom
                        &&& t2.program_brk == cur.program_brk
                        &&& t2.memory_set.areas@ == cur.memory_set.areas@.push(
                            spec_mmap_area(start, len, port),
                        )
                    },
                    None => false,
                }
                &&& r != 0 ==> final(kernel).current == old(kernel).current
            },
            None => true,
        },
{
    if start > MAX_VA || len > MAX_VA - start {
        return -1;
    }
    match &mut kernel.current {
        Some(task) => match task.mmap(start, len, port) {
            Ok(_) => 0,
            Err(_) => -1,
        },
        None => -1,
    }
}

/// Unmaps the region `[start, start + len)` from the current task's address
/// space. Returns 0 on success, -1 when the range leaves the managed address
/// space or the task's own validation rejects the request; a rejection
/// changes nothing.
pub fn sys_munmap(kernel: &mut Kernel, start: usize, len: usize) -> (r: isize)
    requires
        old(kernel).wf(),
        old(kernel).current is Some,
    ensures
        final(kernel).wf(),
        final(kernel).manager == old(kernel).manager,
        match old(kernel).current {
            Some(cur) => {
                let range_ok = start <= MAX_VA && len <= MAX_VA - start;
                &&& r == if range_ok && spec_unmap_err(cur.memory_set.areas@, start, len)
                    is None {
                    0
                } else {
                    -1isize
                }
                &&& r == 0 ==> match final(kernel).current {
                    Some(t2) => {
                        &&& TaskControlBlock::same_task_meta(t2, cur)
                        &&& t2.heap_bottom == cur.heap_bottom
                        &&& t2.program_brk == cur.program_brk
                        &&& exists|i: int|
                            is_first_region_match(
                                cur.memory_set.areas@,
                                spec_floor_vpn(start as int),
                                spec_floor_vpn(start as int + len),
                                i,
                            ) && t2.memory_set.areas@ == cur.memory_set.areas@.remove(i)
                    },
                    None => false,
                }
                &&& r != 0 ==> match final(kernel).current {
                    Some(t2) => TaskControlBlock::same_task_view(t2, cur),
                    None => false,
                }
            },
            None => true,
        },
{
    if start > MAX_VA || len > MAX_VA - start {
        return -1;
    }
    match &mut kernel.current {
        Some(task) => match task.unmap(start, len) {
            Ok(_) => 0,
            Err(_) => -1,
        },
        None => -1,
    }
}

/// Moves the current task's program break by `size` bytes. Returns the old
/// break on success and -1 when the adjustment is rejected; a rejection
/// changes nothing.
pub fn sys_sbrk(kernel: &mut Kernel, size: i32) -> (r: isize)
    requires
        old(kernel).wf(),
        old(kernel).current is Some,
    ensures
        final(kernel).wf(),
        final(kernel).manager == old(kernel).manager,
        match old(kernel).current {
            Some(cur) => {
                &&& r == if spec_brk_can(cur, size as int) {
                    cur.program_brk as isize
                } else {
                    -1isize
                }
                &&& match final(kernel).current {
                    Some(t2) => {
                        &&& TaskControlBlock::same_task_meta(t2, cur)
                        &&& t2.heap_bottom == cur.heap_bottom
                        &&& spec_brk_can(cur, size as int) ==> t2.program_brk
                            == cur.program_brk + size
                        &&& !spec_brk_can(cur, size as int) ==> TaskControlBlock::same_task_view(
                            t2,
                            cur,
                        )
                    },
                    None => false,
                }
            },
            None => true,
        },
{
    match &mut kernel.current {
        Some(task) => match task.change_program_brk(size) {
            Some(old_brk) => old_brk as isize,
            None => -1,
        },
        None => -1,
    }
}

/// Splits a microsecond reading of the monotonic clock into the time value
/// the user buffer receives. Always returns 0; the raw reading comes from
/// the external time source.
pub fn sys_get_time(ts: &mut TimeVal, us: usize) -> (r: isize)
    ensures
        r == 0,
        final(ts).sec == us / 1_000_000,
        final(ts).usec == us % 1_000_000,
{
    ts.sec = us / 1_000_000;
    ts.usec = us % 1_000_000;
    0
}

/// Fills the task-information record for the current task: its status, its
/// syscall counts, and its running time up to `now`. Returns -1, writing
/// nothing, when the task was never scheduled or no syscall was recorded
/// for it.
pub fn sys_task_info(kernel: &Kernel, now: usize, ti: &mut TaskInfo) -> (r: isize)
    requires
        kernel.wf(),
        kernel.current is Some,
        match kernel.current {
            Some(cur) => now >= cur.task_time,
            None => true,
        },
    ensures
        match kernel.current {
            Some(cur) => {
                &&& r == if cur.task_time == 0 || (forall|i: int|
                    0 <= i < cur.task_syscall_times@.len() ==> cur.task_syscall_times@[i]
                        == 0) {
                    -1isize
                } else {
                    0
                }
                &&& r == 0 ==> {
                    &&& final(ti).status == TaskStatus::Running
                    &&& final(ti).syscall_times@ == cur.task_syscall_times@
                    &&& final(ti).time == now - cur.task_time
                }
                &&& r == -1 ==> *final(ti) == *old(ti)
            },
            None => true,
        },
{
    let task = match &kernel.current {
        Some(task) => task,
        None => {
            return -1;
        }
    };
    if task.task_time == 0 {
        return -1;
    }
    if !has_nonzero_count(&task.task_syscall_times) {
        return -1;
    }
    ti.status = TaskStatus::Running;
    ti.syscall_times = copy_counts(&task.task_syscall_times);
    ti.time = now - task.task_time;
    0
}

/// Whether any syscall counter of the table is non-zero.
fn has_nonzero_count(counts: &Vec<u32>) -> (r: bool)
    ensures
        r == !(forall|i: int| 0 <= i < counts@.len() ==> counts@[i] == 0),
{
    let mut i: usize = 0;
    while i < counts.len()
        invariant
            i <= counts@.len(),
            forall|j: int| 0 <= j < i ==> counts@[j] == 0,
        decreases counts@.len() - i,
    {
        if counts[i] != 0 {
            return true;
        }
        i += 1;
    }
    false
}

/// A fresh table with the same counts.
fn copy_counts(counts: &Vec<u32>) -> (r: Vec<u32>)
    ensures
        r@ == counts@,
{
    let mut out: Vec<u32> = Vec::new();
    let mut i: usize = 0;
    while i < counts.len()
        invariant
            i <= counts@.len(),
            out@ == counts@.take(i as int),
        decreases counts@.len() - i,
    {
        out.push(counts[i]);
        proof {
            assert(out@ =~= counts@.take(i as int + 1));
        }
        i += 1;
    }
    proof {
        assert(out@ =~= counts@);
    }
    out
}

/// Takes the current task off the processor, leaving it idle.
fn self_take_current(kernel: &mut Kernel) -> (r: Option<TaskControlBlock>)
    ensures
        r == old(kernel).current,
        final(kernel).current is None,
        final(kernel).manager == old(kernel).manager,
{
    kernel.current.take()
}

} // verus!
