//! Tests of the stride scheduler and the kernel's task lifecycle: selection
//! order, fairness between priorities, status transitions, and the process
//! syscalls.

use os_core::config::BIG_STRIDE;
use os_core::kernel::Kernel;
use os_core::manager::add_task;
use os_core::manager::fetch_task;
use os_core::manager::TaskManager;
use os_core::syscall::process::sys_exit;
use os_core::syscall::process::sys_get_time;
use os_core::syscall::process::sys_mmap;
use os_core::syscall::process::sys_munmap;
use os_core::syscall::process::sys_sbrk;
use os_core::syscall::process::sys_task_info;
use os_core::syscall::process::sys_yield;
use os_core::syscall::process::TaskInfo;
use os_core::syscall::process::TimeVal;
use os_core::task::TaskControlBlock;
use os_core::task::TaskStatus;

fn task_with(app_id: usize, stride: u64, priority: u64) -> TaskControlBlock {
    let mut t = TaskControlBlock::new(0x10000, 0, app_id);
    t.task_stride = stride;
    t.task_priority = priority;
    t
}

#[test]
fn fetch_from_empty_queue() {
    let mut manager = TaskManager::new();
    assert!(manager.fetch().is_none());
}

#[test]
fn fetch_selects_minimum_stride() {
    let mut manager = TaskManager::new();
    manager.add(task_with(0, 50, 16));
    manager.add(task_with(1, 30, 16));
    manager.add(task_with(2, 70, 16));
    let picked = manager.fetch().unwrap();
    assert_eq!(picked.get_user_token(), 1);
    // the stride advanced by BIG_STRIDE / priority
    assert_eq!(picked.task_stride, 30 + BIG_STRIDE / 16);
    assert_eq!(manager.ready_queue.len(), 2);
}

#[test]
fn fetch_breaks_ties_by_enqueue_order() {
    let mut manager = TaskManager::new();
    add_task(&mut manager, task_with(7, 40, 16));
    add_task(&mut manager, task_with(8, 40, 16));
    let picked = fetch_task(&mut manager).unwrap();
    assert_eq!(picked.get_user_token(), 7);
    let picked = fetch_task(&mut manager).unwrap();
    assert_eq!(picked.get_user_token(), 8);
    assert!(fetch_task(&mut manager).is_none());
}

#[test]
fn stride_fairness_between_priorities() {
    // the higher-priority task (smaller pass) is selected at least as often,
    // and neither starves
    let mut manager = TaskManager::new();
    manager.add(task_with(2, 0, 2));
    manager.add(task_with(1, 0, 1));
    let mut picked_high: usize = 0;
    let mut picked_low: usize = 0;
    let mut round: usize = 0;
    while round < 300 {
        let t = manager.fetch().unwrap();
        if t.get_user_token() == 2 {
            picked_high += 1;
        } else {
            picked_low += 1;
        }
        manager.add(t);
        round += 1;
    }
    assert!(picked_high >= picked_low);
    assert!(picked_low >= 1);
    assert!(picked_high >= 1);
    // priorities 2 and 1 give passes in ratio 1:2, so selections come out
    // close to 2:1
    assert_eq!(picked_high, 200);
    assert_eq!(picked_low, 100);
}

#[test]
fn kernel_dispatch_records_first_time() {
    let mut kernel = Kernel::new();
    kernel.add_ready_task(task_with(0, 0, 16));
    assert!(kernel.run_next(123));
    let current = kernel.current.as_ref().unwrap();
    assert_eq!(current.task_status, TaskStatus::Running);
    assert_eq!(current.task_time, 123);
    // yielding keeps the recorded first time
    assert_eq!(sys_yield(&mut kernel, 456), 0);
    let current = kernel.current.as_ref().unwrap();
    assert_eq!(current.task_time, 123);
}

#[test]
fn kernel_idle_when_queue_empty() {
    let mut kernel = Kernel::new();
    assert!(!kernel.run_next(1));
    assert!(kernel.current.is_none());
}

#[test]
fn status_transitions_through_lifecycle() {
    let mut kernel = Kernel::new();
    let t = task_with(0, 0, 16);
    // a fresh task is Ready: UnInit is never externally visible
    assert_eq!(t.task_status, TaskStatus::Ready);
    kernel.add_ready_task(t);
    kernel.add_ready_task(task_with(1, 0, 16));
    assert!(kernel.run_next(10));
    // Ready -> Running
    assert_eq!(kernel.current.as_ref().unwrap().task_status, TaskStatus::Running);
    // Running -> Ready -> Running again via yield
    assert_eq!(sys_yield(&mut kernel, 20), 0);
    assert_eq!(kernel.current.as_ref().unwrap().task_status, TaskStatus::Running);
    // Running -> Exited; the exited block leaves the scheduler for good
    let exited = sys_exit(&mut kernel, 0, 30);
    assert_eq!(exited.task_status, TaskStatus::Exited);
    let second = sys_exit(&mut kernel, 0, 40);
    assert_eq!(second.task_status, TaskStatus::Exited);
    assert!(kernel.current.is_none());
    assert_eq!(kernel.manager.ready_queue.len(), 0);
}

#[test]
fn syscalls_through_kernel() {
    let mut kernel = Kernel::new();
    kernel.add_ready_task(task_with(0, 0, 16));
    assert!(kernel.run_next(5));
    assert_eq!(sys_mmap(&mut kernel, 0x3000, 0x1000, 0b011), 0);
    assert_eq!(sys_mmap(&mut kernel, 0x3000, 0x1000, 0b001), -1);
    assert_eq!(sys_munmap(&mut kernel, 0x3000, 0x1000), 0);
    assert_eq!(sys_munmap(&mut kernel, 0x3000, 0x1000), -1);
    assert_eq!(sys_sbrk(&mut kernel, 4096), 0x10000);
    assert_eq!(sys_sbrk(&mut kernel, 0), 0x11000);
    assert_eq!(sys_sbrk(&mut kernel, -8192), -1);
    // a range outside the managed address space is rejected up front
    assert_eq!(sys_mmap(&mut kernel, usize::MAX - 4095, 0x1000, 0b001), -1);
}

#[test]
fn task_info_reports_counts_and_time() {
    let mut kernel = Kernel::new();
    kernel.add_ready_task(task_with(0, 0, 16));
    assert!(kernel.run_next(100));
    let mut info = TaskInfo { status: TaskStatus::Ready, syscall_times: Vec::new(), time: 0 };
    // no syscall recorded yet: rejected
    assert_eq!(sys_task_info(&kernel, 150, &mut info), -1);
    kernel.current.as_mut().unwrap().record_syscall(64);
    kernel.current.as_mut().unwrap().record_syscall(64);
    kernel.current.as_mut().unwrap().record_syscall(169);
    assert_eq!(sys_task_info(&kernel, 150, &mut info), 0);
    assert_eq!(info.status, TaskStatus::Running);
    assert_eq!(info.time, 50);
    assert_eq!(info.syscall_times[64], 2);
    assert_eq!(info.syscall_times[169], 1);
    assert_eq!(info.syscall_times[0], 0);
}

#[test]
fn task_info_rejects_never_scheduled() {
    let mut kernel = Kernel::new();
    kernel.add_ready_task(task_with(0, 0, 16));
    // dispatched at clock reading zero: the first-scheduled mark stays unset
    assert!(kernel.run_next(0));
    kernel.current.as_mut().unwrap().record_syscall(64);
    let mut info = TaskInfo { status: TaskStatus::Ready, syscall_times: Vec::new(), time: 0 };
    assert_eq!(sys_task_info(&kernel, 9, &mut info), -1);
}

#[test]
fn get_time_splits_microseconds() {
    let mut ts = TimeVal { sec: 0, usec: 0 };
    assert_eq!(sys_get_time(&mut ts, 3_500_000), 0);
    assert_eq!(ts.sec, 3);
    assert_eq!(ts.usec, 500_000);
}

#[test]
fn stride_saturates_at_the_ceiling() {
    let mut manager = TaskManager::new();
    manager.add(task_with(0, u64::MAX - 10, 1));
    let picked = manager.fetch().unwrap();
    assert_eq!(picked.task_stride, u64::MAX);
}

#[test]
fn kernel_stack_positions_do_not_collide() {
    let (b0, t0) = os_core::task::kernel_stack_position(0);
    let (b1, t1) = os_core::task::kernel_stack_position(1);
    assert_eq!(t0 - b0, os_core::config::KERNEL_STACK_SIZE);
    assert_eq!(t1 - b1, os_core::config::KERNEL_STACK_SIZE);
    // one guard page between neighbouring stacks
    assert_eq!(b0 - t1, os_core::config::PAGE_SIZE);
}
