//! Constants shared by the task and memory-management core.

use vstd::prelude::*;

verus! {

/// Bytes in one page of the virtual address space.
pub const PAGE_SIZE: usize = 4096;

/// Exclusive ceiling of the user virtual addresses this core manages.
pub const MAX_VA: usize = 0x4000_0000;

/// Page number just past the managed address range.
pub const MAX_VPN: usize = MAX_VA / PAGE_SIZE;

/// Virtual address of the one page reserved for a task's trap frame,
/// at the very top of the managed range.
pub const TRAP_CONTEXT_BASE: usize = MAX_VA - PAGE_SIZE;

/// Bytes reserved for each task's user stack, directly below its stack top.
pub const USER_STACK_SIZE: usize = 8192;

/// Bytes reserved for each task's kernel stack.
pub const KERNEL_STACK_SIZE: usize = 8192;

/// Top of the region of kernel virtual addresses that holds kernel stacks.
pub const KERNEL_STACK_AREA_TOP: usize = 0x8000_0000;

/// Largest task identifier a kernel stack can be placed for.
pub const MAX_APP_NUM: usize = 4096;

/// Number of distinct syscall identifiers the per-task counters cover.
pub const MAX_SYSCALL_NUM: usize = 500;

/// Stride-scheduling constant: a task's stride advances by
/// `BIG_STRIDE / priority` each time it is selected.
pub const BIG_STRIDE: u64 = 65536;

/// Priority given to a freshly created task.
pub const INIT_PRIORITY: u64 = 16;

} // verus!
