//! The task control block: one task's saved context, status, address space,
//! heap bookkeeping, diagnostics counters and scheduling state, together with
//! the region-validation logic behind the memory-management syscalls.

use vstd::prelude::*;

use crate::config::INIT_PRIORITY;
use crate::config::KERNEL_STACK_AREA_TOP;
use crate::config::KERNEL_STACK_SIZE;
use crate::config::MAX_APP_NUM;
use crate::config::MAX_SYSCALL_NUM;
use crate::config::MAX_VA;
use crate::config::MAX_VPN;
use crate::config::PAGE_SIZE;
use crate::config::TRAP_CONTEXT_BASE;
use crate::config::USER_STACK_SIZE;
use crate::mm::is_first_break_match;
use crate::mm::is_first_region_match;
use crate::mm::page_aligned;
use crate::mm::page_ceil_vpn;
use crate::mm::region_matches;
use crate::mm::set_area_end;
use crate::mm::spec_ceil_vpn;
use crate::mm::spec_floor_vpn;
use crate::mm::spec_overlaps;
use crate::mm::MapArea;
use crate::mm::MemorySet;
use crate::mm::PERM_R;
use crate::mm::PERM_U;
use crate::mm::PERM_W;
use crate::mm::PERM_X;

verus! {

/// Execution status of a task.
#[derive(Clone, Copy, PartialEq, Eq, Structural, Debug)]
pub enum TaskStatus {
    /// Not yet fully constructed; never externally visible.
    UnInit,
    /// Ready to run, waiting in the ready queue.
    Ready,
    /// Currently executing on the processor.
    Running,
    /// Terminated; terminal state.
    Exited,
}

/// The status transitions a task may take: `UnInit -> Ready -> Running`,
/// `Running -> Ready` on preemption, `Running -> Exited` on exit, and
/// staying in place. Nothing leaves `Exited`.
pub open spec fn status_transition_ok(from: TaskStatus, to: TaskStatus) -> bool {
    ||| from == to
    ||| (from == TaskStatus::UnInit && to == TaskStatus::Ready)
    ||| (from == TaskStatus::Ready && to == TaskStatus::Running)
    ||| (from == TaskStatus::Running && (to == TaskStatus::Ready || to == TaskStatus::Exited))
}

/// Law: `Exited` is terminal. Any allowed transition out of `Exited` goes
/// back to `Exited` itself.
pub proof fn lemma_exited_is_terminal(to: TaskStatus)
    ensures
        status_transition_ok(TaskStatus::Exited, to) ==> to == TaskStatus::Exited,
{
}

/// Why a memory-management request was rejected.
#[derive(Clone, Copy, PartialEq, Eq, Structural, Debug)]
pub enum MemError {
    /// An address or length is not a multiple of the page size.
    Misaligned,
    /// The requested range collides with an existing mapped region.
    Overlap,
    /// The permission mask is out of range or grants no access.
    InvalidPermission,
    /// No mapped region matches the request exactly.
    NotFound,
}

/// Saved callee context of a task, written and read only across a context
/// switch. `ra` is modelled as the opaque resume address, zero meaning the
/// common trap-return path.
#[derive(Clone, Copy, PartialEq, Eq, Structural, Debug)]
pub struct TaskContext {
    /// Resume address; zero stands for the trap-return path.
    pub ra: usize,
    /// Kernel stack pointer to resume with.
    pub sp: usize,
}

impl TaskContext {
    /// A context that resumes through the trap-return path on the given
    /// kernel stack.
    pub fn goto_trap_return(kstack_ptr: usize) -> (r: TaskContext)
        ensures
            r == (TaskContext { ra: 0, sp: kstack_ptr }),
    {
        TaskContext { ra: 0, sp: kstack_ptr }
    }
}

/// The trap frame a task first enters user mode with, reduced to the fields
/// the core sets.
#[derive(Clone, Copy, PartialEq, Eq, Structural, Debug)]
pub struct TrapContext {
    /// User program counter to start or resume at.
    pub sepc: usize,
    /// User stack pointer.
    pub sp: usize,
    /// Kernel stack pointer used when trapping back in.
    pub kernel_sp: usize,
}

impl TrapContext {
    /// The initial trap frame of a freshly loaded program.
    pub fn app_init_context(entry: usize, sp: usize, kernel_sp: usize) -> (r: TrapContext)
        ensures
            r == (TrapContext { sepc: entry, sp, kernel_sp }),
    {
        TrapContext { sepc: entry, sp, kernel_sp }
    }
}

/// Top of the kernel stack reserved for task `app_id`.
pub open spec fn spec_kernel_stack_top(app_id: int) -> int {
    KERNEL_STACK_AREA_TOP - app_id * (KERNEL_STACK_SIZE + PAGE_SIZE)
}

/// Kernel-space placement `(bottom, top)` of the kernel stack of task
/// `app_id`: stacks are laid out downward from the top of the kernel stack
/// area, one guard page apart.
pub fn kernel_stack_position(app_id: usize) -> (r: (usize, usize))
    requires
        app_id <= MAX_APP_NUM,
    ensures
        r.1 == spec_kernel_stack_top(app_id as int),
        r.0 == r.1 - KERNEL_STACK_SIZE,
        KERNEL_STACK_SIZE <= r.1 <= KERNEL_STACK_AREA_TOP,
{
    proof {
        assert(app_id * (KERNEL_STACK_SIZE + PAGE_SIZE) <= MAX_APP_NUM * (KERNEL_STACK_SIZE
            + PAGE_SIZE)) by (nonlinear_arith)
            requires
                app_id <= MAX_APP_NUM,
        ;
    }
    let top = KERNEL_STACK_AREA_TOP - app_id * (KERNEL_STACK_SIZE + PAGE_SIZE);
    let bottom = top - KERNEL_STACK_SIZE;
    (bottom, top)
}

/// The task control block (TCB) of a task.
pub struct TaskControlBlock {
    /// Saved task context used by the context switch.
    pub task_cx: TaskContext,
    /// Execution status of the task.
    pub task_status: TaskStatus,
    /// The task's private virtual address space.
    pub memory_set: MemorySet,
    /// Physical page number of the trap frame page.
    pub trap_cx_ppn: usize,
    /// Contents of the trap frame page.
    pub trap_cx: TrapContext,
    /// Highest virtual address used by the loaded program image.
    pub base_size: usize,
    /// Lowest address of the heap; the break never moves below it.
    pub heap_bottom: usize,
    /// Current program break: the top of the heap.
    pub program_brk: usize,
    /// Time the task was first scheduled, zero while never scheduled.
    pub task_time: usize,
    /// How often each syscall identifier was dispatched for the owning task.
    pub task_syscall_times: Vec<u32>,
    /// Stride-scheduling counter; the ready task with the smallest stride
    /// runs next.
    pub task_stride: u64,
    /// Scheduling priority, at least one; higher runs more often.
    pub task_priority: u64,
}

impl TaskControlBlock {
    /// Structural invariant of a task control block.
    pub open spec fn wf(self) -> bool {
        &&& self.task_syscall_times@.len() == MAX_SYSCALL_NUM
        &&& 1 <= self.task_priority
        &&& self.heap_bottom <= self.program_brk <= MAX_VA
        &&& page_aligned(self.heap_bottom as int)
        &&& self.memory_set.wf()
    }

    /// The heap is backed by the first mapped region: it starts at the page
    /// of `heap_bottom` and ends at the page ceiling of `program_brk`.
    /// Established at creation and kept by every operation except an `unmap`
    /// that removes this very region.
    pub open spec fn heap_area_wf(self) -> bool {
        &&& self.memory_set.areas@.len() >= 1
        &&& self.memory_set.areas@[0].start_vpn == spec_floor_vpn(self.heap_bottom as int)
        &&& self.memory_set.areas@[0].end_vpn == spec_ceil_vpn(self.program_brk as int)
    }

    /// All fields except the break bookkeeping and the mapped regions are
    /// the same in `a` and `b`.
    pub open spec fn same_task_meta(a: TaskControlBlock, b: TaskControlBlock) -> bool {
        &&& a.task_cx == b.task_cx
        &&& a.task_status == b.task_status
        &&& a.trap_cx_ppn == b.trap_cx_ppn
        &&& a.trap_cx == b.trap_cx
        &&& a.base_size == b.base_size
        &&& a.task_time == b.task_time
        &&& a.task_syscall_times@ == b.task_syscall_times@
        &&& a.task_stride == b.task_stride
        &&& a.task_priority == b.task_priority
        &&& a.memory_set.id == b.memory_set.id
    }

    /// `a` and `b` agree on every observable field: the metadata, the break
    /// bookkeeping, and the mapped regions.
    pub open spec fn same_task_view(a: TaskControlBlock, b: TaskControlBlock) -> bool {
        &&& Self::same_task_meta(a, b)
        &&& a.heap_bottom == b.heap_bottom
        &&& a.program_brk == b.program_brk
        &&& a.memory_set.areas@ == b.memory_set.areas@
    }

    /// The physical page of the trap frame, cached at creation for O(1)
    /// lookup.
    pub fn get_trap_cx(&self) -> (r: usize)
        ensures
            r == self.trap_cx_ppn,
    {
        self.trap_cx_ppn
    }

    /// The token identifying the owning address space for hardware
    /// activation.
    pub fn get_user_token(&self) -> (r: usize)
        ensures
            r == self.memory_set.id,
    {
        self.memory_set.token()
    }

    /// Builds the control block of a freshly loaded program: a new address
    /// space holding an empty heap region at the stack top, the trap-frame
    /// page, and the user stack; status `Ready`; zeroed diagnostics; default
    /// scheduling state.
    pub fn new(user_sp: usize, entry_point: usize, app_id: usize) -> (t: TaskControlBlock)
        requires
            page_aligned(user_sp as int),
            USER_STACK_SIZE <= user_sp,
            user_sp <= TRAP_CONTEXT_BASE,
            app_id <= MAX_APP_NUM,
        ensures
            t.wf(),
            t.heap_area_wf(),
            t.task_status == TaskStatus::Ready,
            status_transition_ok(TaskStatus::UnInit, t.task_status),
            t.heap_bottom == user_sp,
            t.program_brk == user_sp,
            t.base_size == user_sp,
            t.task_time == 0,
            forall|i: int| 0 <= i < MAX_SYSCALL_NUM ==> t.task_syscall_times@[i] == 0,
            t.task_stride == 0,
            t.task_priority == INIT_PRIORITY,
            t.memory_set.id == app_id,
            t.trap_cx_ppn == spec_floor_vpn(TRAP_CONTEXT_BASE as int),
            t.trap_cx == (TrapContext {
                sepc: entry_point,
                sp: user_sp,
                kernel_sp: spec_kernel_stack_top(app_id as int) as usize,
            }),
            t.task_cx == (TaskContext {
                ra: 0,
                sp: spec_kernel_stack_top(app_id as int) as usize,
            }),
            t.memory_set.areas@.len() == 3,
            t.memory_set.areas@[1] == (MapArea {
                start_vpn: spec_floor_vpn(TRAP_CONTEXT_BASE as int) as usize,
                end_vpn: MAX_VPN,
                perm: PERM_R | PERM_W,
            }),
            t.memory_set.areas@[2] == (MapArea {
                start_vpn: spec_floor_vpn((user_sp - USER_STACK_SIZE) as int) as usize,
                end_vpn: spec_floor_vpn(user_sp as int) as usize,
                perm: PERM_R | PERM_W | PERM_U,
            }),
    {
        proof {
            vstd::arithmetic::div_mod::lemma_div_is_ordered(
                (user_sp - USER_STACK_SIZE) as int,
                user_sp as int,
                PAGE_SIZE as int,
            );
            vstd::arithmetic::div_mod::lemma_div_is_ordered(
                user_sp as int,
                MAX_VA as int,
                PAGE_SIZE as int,
            );
            lemma_ceil_of_aligned(user_sp as int);
        }
        let (_kernel_stack_bottom, kernel_stack_top) = kernel_stack_position(app_id);
        let mut memory_set = MemorySet::new(app_id);
        // The heap region: empty until the program break first grows.
        memory_set.insert_mapped_region(
            user_sp / PAGE_SIZE,
            user_sp / PAGE_SIZE,
            PERM_R | PERM_W | PERM_U,
        );
        // The one page reserved for the trap frame.
        memory_set.insert_mapped_region(TRAP_CONTEXT_BASE / PAGE_SIZE, MAX_VPN, PERM_R | PERM_W);
        // The user stack, directly below the stack top.
        memory_set.insert_mapped_region(
            (user_sp - USER_STACK_SIZE) / PAGE_SIZE,
            user_sp / PAGE_SIZE,
            PERM_R | PERM_W | PERM_U,
        );
        proof {
            assert(crate::mm::contains_vpn(
                memory_set.areas@,
                spec_floor_vpn(TRAP_CONTEXT_BASE as int),
            )) by {
                assert(memory_set.areas@[1].start_vpn <= spec_floor_vpn(TRAP_CONTEXT_BASE as int)
                    < memory_set.areas@[1].end_vpn);
            }
        }
        let trap_cx_ppn = match memory_set.translate(TRAP_CONTEXT_BASE / PAGE_SIZE) {
            Some(ppn) => ppn,
            None => 0,
        };
        let task_syscall_times = zeroed_syscall_counts();
        TaskControlBlock {
            task_cx: TaskContext::goto_trap_return(kernel_stack_top),
            task_status: TaskStatus::Ready,
            memory_set,
            trap_cx_ppn,
            trap_cx: TrapContext::app_init_context(entry_point, user_sp, kernel_stack_top),
            base_size: user_sp,
            heap_bottom: user_sp,
            program_brk: user_sp,
            task_time: 0,
            task_syscall_times,
            task_stride: 0,
            task_priority: INIT_PRIORITY,
        }
    }

    /// Moves the program break by `size` bytes. Fails as a no-op, returning
    /// `None`, when the new break would sink below the heap bottom, leave
    /// the managed range, or no region backs the heap any more; otherwise
    /// resizes the heap region and returns the old break.
    pub fn change_program_brk(&mut self, size: i32) -> (r: Option<usize>)
        requires
            old(self).wf(),
        ensures
            final(self).wf(),
            Self::same_task_meta(*final(self), *old(self)),
            final(self).heap_bottom == old(self).heap_bottom,
            r == if spec_brk_can(*old(self), size as int) {
                Some(old(self).program_brk)
            } else {
                None::<usize>
            },
            !spec_brk_can(*old(self), size as int) ==> Self::same_task_view(
                *final(self),
                *old(self),
            ),
            spec_brk_can(*old(self), size as int) ==> {
                &&& final(self).program_brk == old(self).program_brk + size
                &&& exists|i: int|
                    is_first_break_match(
                        old(self).memory_set.areas@,
                        spec_floor_vpn(old(self).heap_bottom as int),
                        i,
                    ) && final(self).memory_set.areas@ == old(self).memory_set.areas@.update(
                        i,
                        set_area_end(
                            old(self).memory_set.areas@[i],
                            spec_ceil_vpn(old(self).program_brk + size) as usize,
                        ),
                    )
            },
            old(self).heap_area_wf() ==> final(self).heap_area_wf(),
    {
        let old_break = self.program_brk;
        let new_brk_i: i64 = self.program_brk as i64 + size as i64;
        if new_brk_i < self.heap_bottom as i64 {
            return None;
        }
        if new_brk_i > MAX_VA as i64 {
            return None;
        }
        let new_brk: usize = new_brk_i as usize;
        let result = if size < 0 {
            self.memory_set.shrink_break(self.heap_bottom, new_brk)
        } else {
            self.memory_set.grow_break(self.heap_bottom, new_brk)
        };
        if result {
            self.program_brk = new_brk;
            Some(old_break)
        } else {
            None
        }
    }

    /// Maps the anonymous region `[start, start + len)` with the permission
    /// bits `port` (bit 0 readable, bit 1 writable, bit 2 executable),
    /// always user-accessible. Rejections are reported without touching any
    /// existing mapping: a misaligned start, a collision with an existing
    /// region, and a permission mask that is out of range or grants no
    /// access.
    pub fn mmap(&mut self, start: usize, len: usize, port: usize) -> (r: Result<bool, MemError>)
        requires
            old(self).wf(),
            start <= MAX_VA,
            len <= MAX_VA - start,
        ensures
            final(self).wf(),
            Self::same_task_meta(*final(self), *old(self)),
            final(self).heap_bottom == old(self).heap_bottom,
            final(self).program_brk == old(self).program_brk,
            match r {
                Ok(b) => {
                    &&& b
                    &&& spec_mmap_err(old(self).memory_set.areas@, start, len, port) is None
                    &&& final(self).memory_set.areas@ == old(self).memory_set.areas@.push(
                        spec_mmap_area(start, len, port),
                    )
                },
                Err(e) => {
                    &&& Some(e) == spec_mmap_err(old(self).memory_set.areas@, start, len, port)
                    &&& *final(self) == *old(self)
                },
            },
            old(self).heap_area_wf() ==> final(self).heap_area_wf(),
    {
        let end_va = start + len;
        let start_vpn = start / PAGE_SIZE;
        let end_vpn = page_ceil_vpn(end_va);
        if start % PAGE_SIZE != 0 {
            return Err(MemError::Misaligned);
        }
        // The region end is taken at its page ceiling, which is aligned by
        // construction, so no second alignment check can fire.
        if self.memory_set.overlaps(start_vpn, end_vpn) {
            return Err(MemError::Overlap);
        }
        if port & !0b111 != 0 {
            return Err(MemError::InvalidPermission);
        }
        if port & 0b111 == 0 {
            return Err(MemError::InvalidPermission);
        }
        let perm: u8 = PERM_U | (if port & 0b001 != 0 {
            PERM_R
        } else {
            0
        }) | (if port & 0b010 != 0 {
            PERM_W
        } else {
            0
        }) | (if port & 0b100 != 0 {
            PERM_X
        } else {
            0
        });
        proof {
            vstd::arithmetic::div_mod::lemma_div_is_ordered(
                start as int,
                end_va as int + PAGE_SIZE - 1,
                PAGE_SIZE as int,
            );
        }
        self.memory_set.insert_mapped_region(start_vpn, end_vpn, perm);
        Ok(true)
    }

    /// Unmaps the region `[start, start + len)`. Rejects a misaligned start
    /// or end, and a range that no mapped region matches exactly; no partial
    /// removal happens on rejection.
    pub fn unmap(&mut self, start: usize, len: usize) -> (r: Result<bool, MemError>)
        requires
            old(self).wf(),
            start <= MAX_VA,
            len <= MAX_VA - start,
        ensures
            final(self).wf(),
            Self::same_task_meta(*final(self), *old(self)),
            final(self).heap_bottom == old(self).heap_bottom,
            final(self).program_brk == old(self).program_brk,
            match r {
                Ok(b) => {
                    &&& b
                    &&& spec_unmap_err(old(self).memory_set.areas@, start, len) is None
                    &&& exists|i: int|
                        is_first_region_match(
                            old(self).memory_set.areas@,
                            spec_floor_vpn(start as int),
                            spec_floor_vpn(start as int + len),
                            i,
                        ) && final(self).memory_set.areas@ == old(self).memory_set.areas@.remove(i)
                },
                Err(e) => {
                    &&& Some(e) == spec_unmap_err(old(self).memory_set.areas@, start, len)
                    &&& Self::same_task_view(*final(self), *old(self))
                },
            },
    {
        if start % PAGE_SIZE != 0 || (start + len) % PAGE_SIZE != 0 {
            return Err(MemError::Misaligned);
        }
        if self.memory_set.remove_mapped_region(start / PAGE_SIZE, (start + len) / PAGE_SIZE) {
            Ok(true)
        } else {
            Err(MemError::NotFound)
        }
    }

    /// Counts one dispatch of the syscall `syscall_id` against the owning task. The
    /// counter saturates instead of wrapping, so counts never decrease.
    pub fn record_syscall(&mut self, syscall_id: usize)
        requires
            old(self).wf(),
            syscall_id < MAX_SYSCALL_NUM,
        ensures
            final(self).wf(),
            final(self).task_syscall_times@ == old(self).task_syscall_times@.update(
                syscall_id as int,
                saturating_inc(old(self).task_syscall_times@[syscall_id as int]),
            ),
            final(self).task_cx == old(self).task_cx,
            final(self).task_status == old(self).task_status,
            final(self).memory_set == old(self).memory_set,
            final(self).trap_cx_ppn == old(self).trap_cx_ppn,
            final(self).trap_cx == old(self).trap_cx,
            final(self).base_size == old(self).base_size,
            final(self).heap_bottom == old(self).heap_bottom,
            final(self).program_brk == old(self).program_brk,
            final(self).task_time == old(self).task_time,
            final(self).task_stride == old(self).task_stride,
            final(self).task_priority == old(self).task_priority,
            old(self).heap_area_wf() ==> final(self).heap_area_wf(),
    {
        let count = self.task_syscall_times[syscall_id];
        let next = if count == u32::MAX {
            u32::MAX
        } else {
            count + 1
        };
        self.task_syscall_times[syscall_id] = next;
    }
}

/// A counter one higher, stopping at the largest representable value.
pub open spec fn saturating_inc(c: u32) -> u32 {
    if c == u32::MAX {
        u32::MAX
    } else {
        (c + 1) as u32
    }
}

/// The break may move to `program_brk + size` exactly when the target stays
/// between the heap bottom and the managed ceiling and some region still
/// backs the heap.
pub open spec fn spec_brk_can(t: TaskControlBlock, size: int) -> bool {
    &&& t.heap_bottom <= t.program_brk + size <= MAX_VA
    &&& exists|i: int| 0 <= i < t.memory_set.areas@.len()
        && (#[trigger] t.memory_set.areas@[i]).start_vpn == spec_floor_vpn(t.heap_bottom as int)
}

/// The region an accepted `mmap(start, len, port)` inserts.
pub open spec fn spec_mmap_area(start: usize, len: usize, port: usize) -> MapArea {
    MapArea {
        start_vpn: spec_floor_vpn(start as int) as usize,
        end_vpn: spec_ceil_vpn(start as int + len) as usize,
        perm: spec_port_perm(port),
    }
}

/// The facade permission mask for the syscall permission bits `port`:
/// user-accessibility always, the low three bits mapped to read, write and
/// execute.
pub open spec fn spec_port_perm(port: usize) -> u8 {
    PERM_U | (if port & 0b001 != 0 {
        PERM_R
    } else {
        0
    }) | (if port & 0b010 != 0 {
        PERM_W
    } else {
        0
    }) | (if port & 0b100 != 0 {
        PERM_X
    } else {
        0
    })
}

/// Why `mmap(start, len, port)` on an address space with regions `areas` is
/// rejected, `None` when it is accepted. Checks run in this order: alignment
/// of the start, collision with an existing region, then the permission
/// mask.
pub open spec fn spec_mmap_err(
    areas: Seq<MapArea>,
    start: usize,
    len: usize,
    port: usize,
) -> Option<MemError> {
    if start as int % (PAGE_SIZE as int) != 0 {
        Some(MemError::Misaligned)
    } else if spec_overlaps(
        areas,
        spec_floor_vpn(start as int),
        spec_ceil_vpn(start as int + len),
    ) {
        Some(MemError::Overlap)
    } else if port & !0b111 != 0 {
        Some(MemError::InvalidPermission)
    } else if port & 0b111 == 0 {
        Some(MemError::InvalidPermission)
    } else {
        None
    }
}

/// Why `munmap(start, len)` on an address space with regions `areas` is
/// rejected, `None` when it is accepted: misalignment of either end first,
/// then the absence of an exactly matching region.
pub open spec fn spec_unmap_err(areas: Seq<MapArea>, start: usize, len: usize) -> Option<
    MemError,
> {
    if start as int % (PAGE_SIZE as int) != 0 || (start as int + len) % (PAGE_SIZE as int) != 0 {
        Some(MemError::Misaligned)
    } else if !(exists|i: int| 0 <= i < areas.len() && region_matches(
        #[trigger] areas[i],
        spec_floor_vpn(start as int),
        spec_floor_vpn(start as int + len),
    )) {
        Some(MemError::NotFound)
    } else {
        None
    }
}

/// On a page-aligned address, rounding up to the next page boundary is the
/// identity on page numbers.
pub proof fn lemma_ceil_of_aligned(va: int)
    requires
        0 <= va,
        page_aligned(va),
    ensures
        spec_ceil_vpn(va) == spec_floor_vpn(va),
{
    vstd::arithmetic::div_mod::lemma_fundamental_div_mod(va, PAGE_SIZE as int);
    vstd::arithmetic::div_mod::lemma_div_multiples_vanish_fancy(
        va / (PAGE_SIZE as int),
        PAGE_SIZE as int - 1,
        PAGE_SIZE as int,
    );
}

/// Law: an `mmap` whose start is not page-aligned is always rejected with
/// the alignment violation, whatever the rest of the request; `mmap`'s own
/// contract adds that a rejected call leaves the task untouched.
pub proof fn lemma_mmap_misaligned_rejected(
    areas: Seq<MapArea>,
    start: usize,
    len: usize,
    port: usize,
)
    requires
        !page_aligned(start as int),
    ensures
        spec_mmap_err(areas, start, len, port) == Some(MemError::Misaligned),
{
}

/// Law: an `mmap` whose page range collides with any existing region is
/// rejected with the overlap violation, regardless of the permission bits;
/// `mmap`'s own contract adds that a rejected call leaves the task
/// untouched.
pub proof fn lemma_mmap_overlap_rejected(areas: Seq<MapArea>, start: usize, len: usize, port: usize)
    requires
        page_aligned(start as int),
        spec_overlaps(areas, spec_floor_vpn(start as int), spec_ceil_vpn(start as int + len)),
    ensures
        spec_mmap_err(areas, start, len, port) == Some(MemError::Overlap),
{
}

/// Law: after a successful `mmap(start, len, port)` of a non-empty,
/// page-aligned range, `munmap(start, len)` is accepted and removes exactly
/// the new region, restoring the previous region list; a second
/// `munmap(start, len)` is then rejected as not found.
pub proof fn lemma_mmap_munmap_round_trip(
    areas: Seq<MapArea>,
    start: usize,
    len: usize,
    port: usize,
)
    requires
        0 < len,
        page_aligned(start as int),
        page_aligned(len as int),
        start + len <= MAX_VA,
        spec_mmap_err(areas, start, len, port) is None,
    ensures
        ({
            let sv = spec_floor_vpn(start as int);
            let ev = spec_floor_vpn(start as int + len);
            let s1 = areas.push(spec_mmap_area(start, len, port));
            &&& spec_unmap_err(s1, start, len) is None
            &&& is_first_region_match(s1, sv, ev, areas.len() as int)
            &&& s1.remove(areas.len() as int) =~= areas
            &&& spec_unmap_err(areas, start, len) == Some(MemError::NotFound)
        }),
{
    let sv = spec_floor_vpn(start as int);
    let ev = spec_floor_vpn(start as int + len);
    let s1 = areas.push(spec_mmap_area(start, len, port));
    vstd::arithmetic::div_mod::lemma_add_mod_noop(start as int, len as int, PAGE_SIZE as int);
    assert((start as int + len) % (PAGE_SIZE as int) == 0);
    lemma_ceil_of_aligned(start as int + len);
    assert(spec_mmap_area(start, len, port).start_vpn == sv);
    assert(spec_mmap_area(start, len, port).end_vpn == ev);
    // A non-empty aligned length spans at least one full page.
    vstd::arithmetic::div_mod::lemma_fundamental_div_mod(len as int, PAGE_SIZE as int);
    assert(len as int == (PAGE_SIZE as int) * (len as int / (PAGE_SIZE as int)));
    assert(sv < ev) by {
        vstd::arithmetic::div_mod::lemma_fundamental_div_mod(start as int, PAGE_SIZE as int);
        vstd::arithmetic::div_mod::lemma_div_multiples_vanish_fancy(
            spec_floor_vpn(start as int) + len as int / (PAGE_SIZE as int),
            0,
            PAGE_SIZE as int,
        );
        assert((PAGE_SIZE as int) * (spec_floor_vpn(start as int) + len as int / (PAGE_SIZE
            as int)) == start as int + len as int) by (nonlinear_arith)
            requires
                start as int == (PAGE_SIZE as int) * spec_floor_vpn(start as int),
                len as int == (PAGE_SIZE as int) * (len as int / (PAGE_SIZE as int)),
        ;
        assert(len as int / (PAGE_SIZE as int) > 0) by (nonlinear_arith)
            requires
                len as int == (PAGE_SIZE as int) * (len as int / (PAGE_SIZE as int)),
                0 < len,
        ;
    }
    // No earlier region is exactly the new range: such a region would have
    // collided with the accepted request.
    assert forall|j: int| 0 <= j < areas.len() implies !region_matches(
        #[trigger] areas[j],
        sv,
        ev,
    ) by {
        if region_matches(areas[j], sv, ev) {
            assert(crate::mm::area_overlaps(areas[j], sv, spec_ceil_vpn(start as int + len)));
        }
    }
    assert(region_matches(s1[areas.len() as int], sv, ev));
    assert(spec_unmap_err(s1, start, len) is None);
}

/// Law: moving the break by `delta` and then by `-delta`, both accepted,
/// restores both the break and the heap region exactly; with `delta` zero a
/// single accepted call already leaves the region list unchanged.
pub proof fn lemma_sbrk_round_trip(
    areas: Seq<MapArea>,
    heap_bottom: usize,
    brk0: usize,
    delta: int,
    i: int,
)
    requires
        is_first_break_match(areas, spec_floor_vpn(heap_bottom as int), i),
        areas[i].end_vpn == spec_ceil_vpn(brk0 as int),
        heap_bottom <= brk0 + delta <= MAX_VA,
        heap_bottom <= brk0 <= MAX_VA,
    ensures
        ({
            let a1 = areas.update(
                i,
                set_area_end(areas[i], spec_ceil_vpn(brk0 as int + delta) as usize),
            );
            &&& is_first_break_match(a1, spec_floor_vpn(heap_bottom as int), i)
            &&& a1.update(i, set_area_end(a1[i], spec_ceil_vpn(brk0 as int) as usize)) =~= areas
        }),
{
    let a1 = areas.update(i, set_area_end(areas[i], spec_ceil_vpn(brk0 as int + delta) as usize));
    assert(a1[i].start_vpn == areas[i].start_vpn);
    assert(forall|j: int| 0 <= j < areas.len() && j != i ==> a1[j] == areas[j]);
    assert(set_area_end(a1[i], spec_ceil_vpn(brk0 as int) as usize) == areas[i]);
}

/// Law: an accepted break move of zero keeps the break and resizes the heap
/// region to the page ceiling it already has, leaving the region list
/// unchanged.
pub proof fn lemma_sbrk_zero(areas: Seq<MapArea>, heap_bottom: usize, brk0: usize, i: int)
    requires
        is_first_break_match(areas, spec_floor_vpn(heap_bottom as int), i),
        areas[i].end_vpn == spec_ceil_vpn(brk0 as int),
        heap_bottom <= brk0 <= MAX_VA,
    ensures
        areas.update(i, set_area_end(areas[i], spec_ceil_vpn(brk0 as int) as usize)) =~= areas,
{
    assert(set_area_end(areas[i], spec_ceil_vpn(brk0 as int) as usize) == areas[i]);
}

/// The syscall counter table of a new task: one zero for every syscall
/// identifier.
fn zeroed_syscall_counts() -> (r: Vec<u32>)
    ensures
        r@.len() == MAX_SYSCALL_NUM,
        forall|i: int| 0 <= i < MAX_SYSCALL_NUM ==> r@[i] == 0,
{
    let mut counts: Vec<u32> = Vec::new();
    let mut i: usize = 0;
    while i < MAX_SYSCALL_NUM
        invariant
            i == counts@.len(),
            i <= MAX_SYSCALL_NUM,
            forall|j: int| 0 <= j < i ==> counts@[j] == 0,
        decreases MAX_SYSCALL_NUM - i,
    {
        counts.push(0);
        i += 1;
    }
    counts
}

} // verus!
