//! The stride-scheduling task manager: a ready queue from which the task
//! with the smallest stride is selected, earliest-enqueued first among ties,
//! and advanced by a pass inversely proportional to its priority.

use vstd::prelude::*;

use crate::config::BIG_STRIDE;
use crate::task::TaskControlBlock;

verus! {

/// The pass a task advances by when selected: `BIG_STRIDE / priority`, so
/// higher priorities advance more slowly and are selected more often.
pub open spec fn spec_pass(priority: u64) -> int {
    BIG_STRIDE as int / priority as int
}

/// The task after one selection: its stride advanced by its pass, saturating
/// at the largest representable stride.
pub open spec fn advance_stride(t: TaskControlBlock) -> TaskControlBlock {
    TaskControlBlock {
        task_stride: if t.task_stride + spec_pass(t.task_priority) <= u64::MAX {
            (t.task_stride + spec_pass(t.task_priority)) as u64
        } else {
            u64::MAX
        },
        ..t
    }
}

/// Law: a task's stride never decreases when it is selected, so strides are
/// monotonically non-decreasing over a task's lifetime.
pub proof fn lemma_stride_monotone(t: TaskControlBlock)
    requires
        1 <= t.task_priority,
    ensures
        advance_stride(t).task_stride >= t.task_stride,
{
    vstd::arithmetic::div_mod::lemma_div_pos_is_pos(BIG_STRIDE as int, t.task_priority as int);
}

/// Law (starvation-freedom invariant): when every ready stride lies within
/// `BIG_STRIDE` of every other and the minimum-stride task is selected and
/// advanced, the strides still lie within `BIG_STRIDE` of each other. A task
/// can therefore fall at most one full `BIG_STRIDE` behind, and since every
/// selection advances the minimum by at least `BIG_STRIDE / priority`, every
/// ready task keeps being selected.
pub proof fn lemma_stride_gap_bounded(q: Seq<TaskControlBlock>, i: int)
    requires
        is_min_stride_first(q, i),
        forall|j: int| 0 <= j < q.len() ==> 1 <= (#[trigger] q[j]).task_priority,
        forall|j: int, k: int| 0 <= j < q.len() && 0 <= k < q.len() ==> (
        #[trigger] q[j]).task_stride <= (#[trigger] q[k]).task_stride + BIG_STRIDE,
    ensures
        ({
            let q2 = q.update(i, advance_stride(q[i]));
            forall|j: int, k: int| 0 <= j < q2.len() && 0 <= k < q2.len() ==> (
            #[trigger] q2[j]).task_stride <= (#[trigger] q2[k]).task_stride + BIG_STRIDE
        }),
{
    let q2 = q.update(i, advance_stride(q[i]));
    vstd::arithmetic::div_mod::lemma_div_pos_is_pos(BIG_STRIDE as int, q[i].task_priority as int);
    assert(spec_pass(q[i].task_priority) <= BIG_STRIDE) by {
        vstd::arithmetic::div_mod::lemma_div_is_ordered_by_denominator(
            BIG_STRIDE as int,
            1,
            q[i].task_priority as int,
        );
    }
    assert(q2[i].task_stride >= q[i].task_stride);
    assert forall|j: int, k: int| 0 <= j < q2.len() && 0 <= k < q2.len() implies (
    #[trigger] q2[j]).task_stride <= (#[trigger] q2[k]).task_stride + BIG_STRIDE by {
        if j == i {
            assert(q[i].task_stride <= q[k].task_stride);
        }
    }
}

/// How often the first of two tasks was selected in the run `sel`, where
/// `true` stands for a selection of the first task.
pub open spec fn count_true(sel: Seq<bool>) -> int
    decreases sel.len(),
{
    if sel.len() == 0 {
        0
    } else {
        count_true(sel.drop_last()) + if sel.last() {
            1int
        } else {
            0
        }
    }
}

/// `sel` is a stride schedule of two tasks with passes `pass_h` and
/// `pass_l`, both starting at stride zero: each selection (`true` the first
/// task, `false` the second) picks a task whose stride — its selection count
/// so far times its pass — is minimal at that point.
pub open spec fn two_task_run_valid(sel: Seq<bool>, pass_h: int, pass_l: int) -> bool
    decreases sel.len(),
{
    if sel.len() == 0 {
        true
    } else {
        let p = sel.drop_last();
        &&& two_task_run_valid(p, pass_h, pass_l)
        &&& if sel.last() {
            count_true(p) * pass_h <= (p.len() - count_true(p)) * pass_l
        } else {
            (p.len() - count_true(p)) * pass_l <= count_true(p) * pass_h
        }
    }
}

/// Over any valid two-task run, the strides stay within one pass of each
/// other: the gap `n_h * pass_h - n_l * pass_l` lies in `[-pass_l, pass_h]`.
pub proof fn lemma_two_task_gap(sel: Seq<bool>, pass_h: int, pass_l: int)
    requires
        two_task_run_valid(sel, pass_h, pass_l),
        1 <= pass_h,
        1 <= pass_l,
    ensures
        0 <= count_true(sel) <= sel.len(),
        -pass_l <= count_true(sel) * pass_h - (sel.len() - count_true(sel)) * pass_l <= pass_h,
    decreases sel.len(),
{
    if sel.len() == 0 {
    } else {
        let p = sel.drop_last();
        lemma_two_task_gap(p, pass_h, pass_l);
        let nh = count_true(p);
        let nl = p.len() - nh;
        if sel.last() {
            assert(count_true(sel) == nh + 1);
            assert(sel.len() - count_true(sel) == nl);
            assert(nh * pass_h <= nl * pass_l);
            assert((nh + 1) * pass_h == nh * pass_h + pass_h) by (nonlinear_arith);
        } else {
            assert(count_true(sel) == nh);
            assert(sel.len() - count_true(sel) == nl + 1);
            assert(nl * pass_l <= nh * pass_h);
            assert((nl + 1) * pass_l == nl * pass_l + pass_l) by (nonlinear_arith);
        }
    }
}

/// Law (priority-weighted fairness): in any valid two-task run where the
/// first task's pass is no larger — that is, its priority is no smaller —
/// the first task is selected at least as often as the second, up to the
/// single selection a tie at equal strides may cost; and over any run of at
/// least two selections neither task starves: each is selected at least
/// once.
pub proof fn lemma_two_task_fairness(sel: Seq<bool>, pass_h: int, pass_l: int)
    requires
        two_task_run_valid(sel, pass_h, pass_l),
        1 <= pass_h <= pass_l,
    ensures
        count_true(sel) + 1 >= sel.len() - count_true(sel),
        sel.len() >= 2 ==> count_true(sel) >= 1 && sel.len() - count_true(sel) >= 1,
{
    lemma_two_task_gap(sel, pass_h, pass_l);
    let nh = count_true(sel);
    let nl = sel.len() - nh;
    assert((nl - 1) * pass_l == nl * pass_l - pass_l) by (nonlinear_arith);
    assert((nh - 1) * pass_h == nh * pass_h - pass_h) by (nonlinear_arith);
    assert(nh + 1 >= nl) by (nonlinear_arith)
        requires
            (nl - 1) * pass_l <= nh * pass_h,
            0 <= nh,
            1 <= pass_h <= pass_l,
    ;
    if sel.len() >= 2 {
        assert(nh >= 1) by (nonlinear_arith)
            requires
                (nl - 1) * pass_l <= nh * pass_h,
                0 <= nh,
                nl + nh >= 2,
                1 <= pass_h <= pass_l,
        ;
        assert(nl >= 1) by (nonlinear_arith)
            requires
                (nh - 1) * pass_h <= nl * pass_l,
                0 <= nl,
                nl + nh >= 2,
                1 <= pass_h <= pass_l,
        ;
    }
}

/// `i` is the index `fetch` selects from queue `s`: its stride is least, and
/// every earlier entry has a strictly greater stride (ties are broken in
/// favour of the earliest-enqueued entry).
pub open spec fn is_min_stride_first(s: Seq<TaskControlBlock>, i: int) -> bool {
    &&& 0 <= i < s.len()
    &&& forall|j: int| 0 <= j < s.len() ==> s[i].task_stride <= (#[trigger] s[j]).task_stride
    &&& forall|j: int| 0 <= j < i ==> s[i].task_stride < (#[trigger] s[j]).task_stride
}

/// The ready queue of the stride scheduler.
pub struct TaskManager {
    /// Tasks ready to run, in enqueue order.
    pub ready_queue: Vec<TaskControlBlock>,
}

impl TaskManager {
    /// Every queued task is well formed.
    pub open spec fn wf(self) -> bool {
        forall|i: int| 0 <= i < self.ready_queue@.len() ==> (#[trigger] self.ready_queue@[i]).wf()
    }

    /// An empty task manager.
    pub fn new() -> (r: TaskManager)
        ensures
            r.ready_queue@ == Seq::<TaskControlBlock>::empty(),
            r.wf(),
    {
        TaskManager { ready_queue: Vec::new() }
    }

    /// Appends a task to the tail of the ready queue. The task keeps the
    /// stride recorded at its last scheduling; no stride computation happens
    /// here.
    pub fn add(&mut self, task: TaskControlBlock)
        ensures
            final(self).ready_queue@ == old(self).ready_queue@.push(task),
    {
        self.ready_queue.push(task);
    }

    /// Selects and removes the ready task with the smallest stride, the
    /// earliest-enqueued among ties, and advances its stride by
    /// `BIG_STRIDE / priority`. Returns `None` exactly when the queue is
    /// empty.
    pub fn fetch(&mut self) -> (r: Option<TaskControlBlock>)
        requires
            old(self).wf(),
        ensures
            final(self).wf(),
            r is None <==> old(self).ready_queue@.len() == 0,
            r is None ==> final(self).ready_queue@ == old(self).ready_queue@,
            match r {
                Some(t) => exists|i: int|
                    {
                        &&& #[trigger] is_min_stride_first(old(self).ready_queue@, i)
                        &&& t == advance_stride(old(self).ready_queue@[i])
                        &&& final(self).ready_queue@ == old(self).ready_queue@.remove(i)
                    },
                None => true,
            },
            r matches Some(t) ==> t.wf(),
    {
        if self.ready_queue.len() == 0 {
            return None;
        }
        let mut index: usize = 0;
        let mut i: usize = 1;
        while i < self.ready_queue.len()
            invariant
                self == old(self),
                old(self).wf(),
                0 < self.ready_queue@.len(),
                index < i <= self.ready_queue@.len(),
                forall|j: int| 0 <= j < i ==> self.ready_queue@[index as int].task_stride
                    <= (#[trigger] self.ready_queue@[j]).task_stride,
                forall|j: int| 0 <= j < index ==> self.ready_queue@[index as int].task_stride
                    < (#[trigger] self.ready_queue@[j]).task_stride,
            decreases self.ready_queue@.len() - i,
        {
            if self.ready_queue[i].task_stride < self.ready_queue[index].task_stride {
                index = i;
            }
            i += 1;
        }
        proof {
            assert(is_min_stride_first(self.ready_queue@, index as int));
        }
        let mut task = self.ready_queue.remove(index);
        let pass = BIG_STRIDE / task.task_priority;
        task.task_stride = if task.task_stride <= u64::MAX - pass {
            task.task_stride + pass
        } else {
            u64::MAX
        };
        Some(task)
    }
}

/// Appends a task to a manager's ready queue.
pub fn add_task(manager: &mut TaskManager, task: TaskControlBlock)
    ensures
        final(manager).ready_queue@ == old(manager).ready_queue@.push(task),
{
    manager.add(task);
}

/// Takes the next task to run out of a manager's ready queue, under the
/// stride policy of [`TaskManager::fetch`].
pub fn fetch_task(manager: &mut TaskManager) -> (r: Option<TaskControlBlock>)
    requires
        old(manager).wf(),
    ensures
        final(manager).wf(),
        r is None <==> old(manager).ready_queue@.len() == 0,
        r is None ==> final(manager).ready_queue@ == old(manager).ready_queue@,
        match r {
            Some(t) => exists|i: int|
                {
                    &&& #[trigger] is_min_stride_first(old(manager).ready_queue@, i)
                    &&& t == advance_stride(old(manager).ready_queue@[i])
                    &&& final(manager).ready_queue@ == old(manager).ready_queue@.remove(i)
                },
            None => true,
        },
        r matches Some(t) ==> t.wf(),
{
    manager.fetch()
}

} // verus!
