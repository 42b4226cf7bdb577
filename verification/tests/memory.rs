//! Tests of the task control block's memory management: break adjustment,
//! anonymous mapping and unmapping, and their rejection conditions.

use os_core::config::INIT_PRIORITY;
use os_core::config::MAX_VPN;
use os_core::config::PAGE_SIZE;
use os_core::config::TRAP_CONTEXT_BASE;
use os_core::task::MemError;
use os_core::task::TaskControlBlock;
use os_core::task::TaskStatus;

fn fresh_task() -> TaskControlBlock {
    TaskControlBlock::new(0x10000, 0x1234, 0)
}

#[test]
fn new_task_layout() {
    let t = fresh_task();
    assert_eq!(t.task_status, TaskStatus::Ready);
    assert_eq!(t.heap_bottom, 0x10000);
    assert_eq!(t.program_brk, 0x10000);
    assert_eq!(t.base_size, 0x10000);
    assert_eq!(t.task_time, 0);
    assert_eq!(t.task_stride, 0);
    assert_eq!(t.task_priority, INIT_PRIORITY);
    assert_eq!(t.get_user_token(), 0);
    assert_eq!(t.get_trap_cx(), TRAP_CONTEXT_BASE / PAGE_SIZE);
    assert_eq!(t.trap_cx.sepc, 0x1234);
    assert_eq!(t.trap_cx.sp, 0x10000);
    assert_eq!(t.memory_set.areas.len(), 3);
    // heap region: empty until the break grows
    assert_eq!(t.memory_set.areas[0].start_vpn, 0x10000 / PAGE_SIZE);
    assert_eq!(t.memory_set.areas[0].end_vpn, 0x10000 / PAGE_SIZE);
    // trap frame page at the top of the managed range
    assert_eq!(t.memory_set.areas[1].start_vpn, TRAP_CONTEXT_BASE / PAGE_SIZE);
    assert_eq!(t.memory_set.areas[1].end_vpn, MAX_VPN);
    assert_eq!(t.task_syscall_times.len(), 500);
    assert!(t.task_syscall_times.iter().all(|c| *c == 0));
}

#[test]
fn sbrk_grow_then_underflow() {
    // task loaded with heap_bottom = program_break = 0x10000
    let mut t = fresh_task();
    // growing by one page returns the old break
    assert_eq!(t.change_program_brk(4096), Some(0x10000));
    assert_eq!(t.program_brk, 0x11000);
    assert_eq!(t.memory_set.areas[0].end_vpn, 0x11000 / PAGE_SIZE);
    // sinking below the heap bottom fails and changes nothing
    assert_eq!(t.change_program_brk(-8192), None);
    assert_eq!(t.program_brk, 0x11000);
}

#[test]
fn sbrk_zero_is_identity() {
    let mut t = fresh_task();
    assert_eq!(t.change_program_brk(0), Some(0x10000));
    assert_eq!(t.program_brk, 0x10000);
    assert_eq!(t.memory_set.areas[0].end_vpn, 0x10000 / PAGE_SIZE);
}

#[test]
fn sbrk_round_trip_restores_break() {
    let mut t = fresh_task();
    let before_end = t.memory_set.areas[0].end_vpn;
    assert_eq!(t.change_program_brk(4096), Some(0x10000));
    assert_eq!(t.change_program_brk(-4096), Some(0x11000));
    assert_eq!(t.program_brk, 0x10000);
    assert_eq!(t.memory_set.areas[0].end_vpn, before_end);
    // a sub-page delta works on byte granularity too
    assert_eq!(t.change_program_brk(64), Some(0x10000));
    assert_eq!(t.change_program_brk(-64), Some(0x10040));
    assert_eq!(t.program_brk, 0x10000);
}

#[test]
fn mmap_then_overlap_fails() {
    let mut t = fresh_task();
    // page-aligned, readable and writable
    assert_eq!(t.mmap(0x3000, 0x1000, 0b011), Ok(true));
    // the same range again collides, whatever the permission bits
    assert_eq!(t.mmap(0x3000, 0x1000, 0b001), Err(MemError::Overlap));
    assert_eq!(t.mmap(0x2000, 0x2000, 0b111), Err(MemError::Overlap));
}

#[test]
fn mmap_misaligned_start_fails() {
    let mut t = fresh_task();
    let areas_before = t.memory_set.areas.len();
    assert_eq!(t.mmap(0x3001, 0x1000, 0b001), Err(MemError::Misaligned));
    // a rejected request leaves the mappings unchanged
    assert_eq!(t.memory_set.areas.len(), areas_before);
}

#[test]
fn mmap_invalid_permission_bits() {
    let mut t = fresh_task();
    assert_eq!(t.mmap(0x3000, 0x1000, 0b1000), Err(MemError::InvalidPermission));
    assert_eq!(t.mmap(0x3000, 0x1000, 0), Err(MemError::InvalidPermission));
    assert_eq!(t.memory_set.areas.len(), 3);
}

#[test]
fn munmap_round_trip() {
    let mut t = fresh_task();
    assert_eq!(t.mmap(0x3000, 0x1000, 0b011), Ok(true));
    let areas_after_map = t.memory_set.areas.len();
    assert_eq!(t.unmap(0x3000, 0x1000), Ok(true));
    assert_eq!(t.memory_set.areas.len(), areas_after_map - 1);
    // the region is gone: a second unmap of the same range is not found
    assert_eq!(t.unmap(0x3000, 0x1000), Err(MemError::NotFound));
}

#[test]
fn munmap_misaligned_fails() {
    let mut t = fresh_task();
    assert_eq!(t.mmap(0x3000, 0x1000, 0b011), Ok(true));
    assert_eq!(t.unmap(0x3000, 0x800), Err(MemError::Misaligned));
    assert_eq!(t.unmap(0x3100, 0x1000), Err(MemError::Misaligned));
    // the mapping survives the rejected requests
    assert_eq!(t.unmap(0x3000, 0x1000), Ok(true));
}

#[test]
fn mmap_rounds_length_up_to_page() {
    let mut t = fresh_task();
    assert_eq!(t.mmap(0x5000, 1, 0b001), Ok(true));
    let area = t.memory_set.areas[t.memory_set.areas.len() - 1];
    assert_eq!(area.start_vpn, 0x5000 / PAGE_SIZE);
    assert_eq!(area.end_vpn, 0x5000 / PAGE_SIZE + 1);
}

#[test]
fn unmapping_the_heap_region_disables_sbrk() {
    let mut t = fresh_task();
    assert_eq!(t.change_program_brk(4096), Some(0x10000));
    // the heap region [0x10000, 0x11000) can be unmapped like any other
    assert_eq!(t.unmap(0x10000, 0x1000), Ok(true));
    // with no region backing the heap, every break move is refused
    assert_eq!(t.change_program_brk(0), None);
    assert_eq!(t.change_program_brk(4096), None);
    assert_eq!(t.program_brk, 0x11000);
}

#[test]
fn mmap_at_the_range_edge() {
    let mut t = fresh_task();
    // the page below the trap frame page is free
    let top = TRAP_CONTEXT_BASE - PAGE_SIZE;
    assert_eq!(t.mmap(top, PAGE_SIZE, 0b001), Ok(true));
    // the trap frame page itself is taken
    assert_eq!(t.mmap(TRAP_CONTEXT_BASE, PAGE_SIZE, 0b001), Err(MemError::Overlap));
}

#[test]
fn syscall_counter_saturates() {
    let mut t = fresh_task();
    t.task_syscall_times[5] = u32::MAX - 1;
    t.record_syscall(5);
    assert_eq!(t.task_syscall_times[5], u32::MAX);
    t.record_syscall(5);
    assert_eq!(t.task_syscall_times[5], u32::MAX);
}
