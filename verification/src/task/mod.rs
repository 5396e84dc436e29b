use vstd::prelude::*;

pub mod context;
pub mod task;

pub use context::TaskContext;
pub use task::{TaskControlBlock, TaskStatus};
use crate::batch::MAX_APP_NUM;
use crate::up::UPSafeCell;

verus! {

/// The mutable part of the task manager.
pub struct TaskManagerInner {
    pub tasks: Vec<TaskControlBlock>,
    pub current_task: usize,
}

/// The task manager: a fixed table of task control blocks and the index of
/// the task that currently runs.
pub struct TaskManager {
    num_app: usize,
    inner: UPSafeCell<TaskManagerInner>,
}

/// The statuses of a table of task control blocks.
pub open spec fn statuses_of(tasks: Seq<TaskControlBlock>) -> Seq<TaskStatus> {
    tasks.map_values(|t: TaskControlBlock| t.task_status)
}

/// The statuses keep the table's order: one per task, task `i`'s own.
pub proof fn lemma_statuses_of(tasks: Seq<TaskControlBlock>)
    ensures
        statuses_of(tasks).len() == tasks.len(),
        forall|i: int| 0 <= i < tasks.len() ==> #[trigger] statuses_of(tasks)[i] == tasks[i].task_status,
{
}

/// Scanning the offsets `k, k + 1, ..., n` after `cur` (taken modulo `n`),
/// the first task found `Ready`.
pub open spec fn first_ready_from(st: Seq<TaskStatus>, cur: int, n: int, k: int) -> Option<int>
    decreases n + 1 - k,
{
    if k > n || n <= 0 {
        None
    } else if st[(cur + k) % n] == TaskStatus::Ready {
        Some((cur + k) % n)
    } else {
        first_ready_from(st, cur, n, k + 1)
    }
}

/// Round robin: the first `Ready` task among `cur + 1, cur + 2, ..., cur + n`,
/// each taken modulo `n`.
pub open spec fn next_ready(st: Seq<TaskStatus>, cur: int, n: int) -> Option<int> {
    first_ready_from(st, cur, n, 1)
}

/// Some loaded application (index below `n`) is `Ready`.
pub open spec fn some_ready(st: Seq<TaskStatus>, n: int) -> bool {
    exists|i: int| 0 <= i < n && #[trigger] st[i] == TaskStatus::Ready
}

/// A task found by the round-robin scan is a loaded application that is `Ready`.
pub proof fn lemma_next_ready_is_ready(st: Seq<TaskStatus>, cur: int, n: int)
    ensures
        next_ready(st, cur, n) matches Some(id) ==> 0 <= id < n && st[id] == TaskStatus::Ready,
{
    lemma_first_ready_from_is_ready(st, cur, n, 1);
}

proof fn lemma_first_ready_from_is_ready(st: Seq<TaskStatus>, cur: int, n: int, k: int)
    ensures
        first_ready_from(st, cur, n, k) matches Some(id) ==> 0 <= id < n && st[id] == TaskStatus::Ready,
    decreases n + 1 - k,
{
    if k > n || n <= 0 {
    } else if st[(cur + k) % n] == TaskStatus::Ready {
    } else {
        lemma_first_ready_from_is_ready(st, cur, n, k + 1);
    }
}

/// No task from `a` up to (not including) `b` places after `cur` (modulo
/// `n`) is `Ready`.
pub open spec fn none_ready_between(st: Seq<TaskStatus>, cur: int, n: int, a: int, b: int) -> bool {
    forall|j: int| a <= j < b ==> st[#[trigger] ((cur + j) % n)] != TaskStatus::Ready
}

/// The round-robin scan picks the first `Ready` task after `cur`: the task
/// found lies `k` places after `cur` (modulo `n`, with `1 <= k <= n`), and no
/// task fewer places after `cur` is `Ready`.
pub proof fn lemma_next_ready_is_first(st: Seq<TaskStatus>, cur: int, n: int)
    ensures
        next_ready(st, cur, n) matches Some(id) ==> exists|k: int|
            1 <= k <= n && (cur + k) % n == id && #[trigger] none_ready_between(st, cur, n, 1, k),
{
    lemma_first_ready_from_is_first(st, cur, n, 1);
}

proof fn lemma_first_ready_from_is_first(st: Seq<TaskStatus>, cur: int, n: int, k: int)
    requires
        1 <= k,
    ensures
        first_ready_from(st, cur, n, k) matches Some(id) ==> exists|k0: int|
            k <= k0 <= n && (cur + k0) % n == id && #[trigger] none_ready_between(st, cur, n, k, k0),
    decreases n + 1 - k,
{
    if k > n || n <= 0 {
    } else if st[(cur + k) % n] == TaskStatus::Ready {
        assert(none_ready_between(st, cur, n, k, k));
    } else {
        lemma_first_ready_from_is_first(st, cur, n, k + 1);
        if let Some(id) = first_ready_from(st, cur, n, k) {
            let k0 = choose|k0: int|
                k + 1 <= k0 <= n && (cur + k0) % n == id && #[trigger] none_ready_between(st, cur, n, k + 1, k0);
            assert(none_ready_between(st, cur, n, k, k0));
        }
    }
}

/// Changing one status keeps the table's length and every context, sets the
/// status of task `id`, and leaves every other task as it was.
pub proof fn lemma_with_status(tasks: Seq<TaskControlBlock>, id: int, status: TaskStatus)
    requires
        0 <= id < tasks.len(),
    ensures
        with_status(tasks, id, status).len() == tasks.len(),
        with_status(tasks, id, status)[id].task_status == status,
        with_status(tasks, id, status)[id].task_cx == tasks[id].task_cx,
        forall|i: int| 0 <= i < tasks.len() && i != id ==> #[trigger] with_status(tasks, id, status)[i] == tasks[i],
{
}

/// When the scan from offset `k` finds nothing, no offset from `k` to `n`
/// names a `Ready` task.
proof fn lemma_first_ready_from_none(st: Seq<TaskStatus>, cur: int, n: int, k: int)
    requires
        first_ready_from(st, cur, n, k) is None,
        n > 0,
    ensures
        forall|j: int| k <= j <= n ==> st[#[trigger] ((cur + j) % n)] != TaskStatus::Ready,
    decreases n + 1 - k,
{
    if k <= n {
        lemma_first_ready_from_none(st, cur, n, k + 1);
    }
}

/// Every task index below `n` is met at some offset in `1..=n` after `cur`.
proof fn lemma_offset_reaches(cur: int, n: int, i: int) -> (k: int)
    requires
        0 <= cur,
        0 <= i < n,
    ensures
        1 <= k <= n,
        (cur + k) % n == i,
{
    let d = (i - cur) % n;
    vstd::arithmetic::div_mod::lemma_fundamental_div_mod(i - cur, n);
    vstd::arithmetic::div_mod::lemma_mod_bound(i - cur, n);
    vstd::arithmetic::div_mod::lemma_small_mod(i as nat, n as nat);
    let q = (i - cur) / n;
    assert(i - cur == n * q + d);
    let k = if d == 0 { n } else { d };
    let c = if d == 0 { 1 - q } else { 0 - q };
    assert(cur + k == n * c + i) by (nonlinear_arith)
        requires
            i - cur == n * q + d,
            k == if d == 0 { n } else { d },
            c == if d == 0 { 1 - q } else { 0 - q },
    ;
    vstd::arithmetic::div_mod::lemma_mod_multiples_vanish(c, i, n);
    k
}

/// The round-robin scan finds nothing exactly when no loaded application is
/// `Ready`.
pub proof fn lemma_next_ready_none_iff(st: Seq<TaskStatus>, cur: int, n: int)
    requires
        0 <= cur,
        0 <= n,
    ensures
        next_ready(st, cur, n) is None <==> forall|i: int| 0 <= i < n ==> st[i] != TaskStatus::Ready,
{
    lemma_next_ready_is_ready(st, cur, n);
    if next_ready(st, cur, n) is None && n > 0 {
        lemma_first_ready_from_none(st, cur, n, 1);
        assert forall|i: int| 0 <= i < n implies st[i] != TaskStatus::Ready by {
            let k = lemma_offset_reaches(cur, n, i);
            assert(st[(cur + k) % n] != TaskStatus::Ready);
        }
    }
}

/// When the task at `cur` is itself `Ready`, the scan from any offset up to
/// `n` finds a task (at the latest, `cur` at offset `n`).
proof fn lemma_first_ready_from_finds_self(st: Seq<TaskStatus>, cur: int, n: int, k: int)
    requires
        0 <= cur < n,
        1 <= k <= n,
        st[cur] == TaskStatus::Ready,
    ensures
        first_ready_from(st, cur, n, k) is Some,
    decreases n + 1 - k,
{
    if k < n && st[(cur + k) % n] != TaskStatus::Ready {
        lemma_first_ready_from_finds_self(st, cur, n, k + 1);
    } else if k == n {
        vstd::arithmetic::div_mod::lemma_mod_multiples_vanish(1, cur, n);
        vstd::arithmetic::div_mod::lemma_small_mod(cur as nat, n as nat);
    }
}

/// Finds the first `Ready` task after `current` in round-robin order.
fn find_ready(tasks: &Vec<TaskControlBlock>, current: usize, n: usize) -> (r: Option<usize>)
    requires
        current < MAX_APP_NUM,
        n <= MAX_APP_NUM,
        tasks.len() == MAX_APP_NUM,
    ensures
        r matches Some(id) ==> next_ready(statuses_of(tasks@), current as int, n as int) == Some(id as int),
        r is None ==> next_ready(statuses_of(tasks@), current as int, n as int) is None,
{
    let ghost st = statuses_of(tasks@);
    let mut id = current + 1;
    while id < current + n + 1
        invariant
            current < MAX_APP_NUM,
            n <= MAX_APP_NUM,
            tasks.len() == MAX_APP_NUM,
            st == statuses_of(tasks@),
            current + 1 <= id <= current + n + 1,
            first_ready_from(st, current as int, n as int, id - current) == next_ready(st, current as int, n as int),
        decreases current + n + 1 - id,
    {
        let j = id % n;
        assert(st[j as int] == tasks@[j as int].task_status);
        if tasks[j].task_status == TaskStatus::Ready {
            return Some(j);
        }
        id += 1;
    }
    None
}

/// The two tasks of a switch: the one whose context is saved and the one
/// whose context is restored.
#[derive(Clone, Copy, PartialEq, Eq, Structural, Debug)]
pub struct TaskSwitch {
    pub current: usize,
    pub next: usize,
}

/// Whether `t` is the control block that a freshly loaded application starts
/// with: `Ready`, resuming through `restore_addr` on the stack at `kstack_ptr`.
pub open spec fn is_ready_block(t: TaskControlBlock, restore_addr: usize, kstack_ptr: usize) -> bool {
    &&& t.task_status == TaskStatus::Ready
    &&& t.task_cx.ra == restore_addr
    &&& t.task_cx.sp == kstack_ptr
    &&& t.task_cx.s_zero()
}

/// `tasks` after the status of task `id` became `status`.
pub open spec fn with_status(tasks: Seq<TaskControlBlock>, id: int, status: TaskStatus) -> Seq<TaskControlBlock> {
    tasks.update(id, TaskControlBlock { task_status: status, task_cx: tasks[id].task_cx })
}

impl TaskManager {
    /// The task table.
    pub closed spec fn tasks(&self) -> Seq<TaskControlBlock> {
        self.inner.value().tasks@
    }

    /// The status of every task.
    pub open spec fn statuses(&self) -> Seq<TaskStatus> {
        statuses_of(self.tasks())
    }

    /// The index of the current task.
    pub closed spec fn current(&self) -> int {
        self.inner.value().current_task as int
    }

    /// The number of loaded applications.
    pub closed spec fn app_count(&self) -> int {
        self.num_app as int
    }

    /// No task other than the current one is `Running`.
    pub open spec fn only_current_runs(&self) -> bool {
        forall|i: int|
            0 <= i < self.statuses().len() && #[trigger] self.statuses()[i] == TaskStatus::Running
                ==> i == self.current()
    }

    /// The table has one entry per possible application, and both the
    /// application count and the current index stay within it.
    pub open spec fn wf(&self) -> bool {
        &&& self.tasks().len() == MAX_APP_NUM
        &&& 0 <= self.app_count() <= MAX_APP_NUM
        &&& 0 <= self.current() < MAX_APP_NUM
    }

    /// Builds the task table for `kernel_sp.len()` applications: application
    /// `i` is `Ready` and resumes through `restore_addr` with its stack
    /// pointer at `kernel_sp[i]`; the other entries are `UnInit` with zero
    /// contexts. Task 0 is current.
    pub fn new(kernel_sp: &Vec<usize>, restore_addr: usize) -> (tm: Self)
        requires
            kernel_sp.len() <= MAX_APP_NUM,
        ensures
            tm.wf(),
            tm.only_current_runs(),
            tm.app_count() == kernel_sp.len(),
            tm.current() == 0,
            forall|i: int| 0 <= i < kernel_sp.len() ==> is_ready_block(#[trigger] tm.tasks()[i], restore_addr, kernel_sp@[i]),
            forall|i: int| kernel_sp.len() <= i < MAX_APP_NUM ==> {
                &&& (#[trigger] tm.tasks()[i]).task_status == TaskStatus::UnInit
                &&& tm.tasks()[i].task_cx.ra == 0
                &&& tm.tasks()[i].task_cx.sp == 0
                &&& tm.tasks()[i].task_cx.s_zero()
            },
    {
        let num_app = kernel_sp.len();
        let mut tasks: Vec<TaskControlBlock> = Vec::new();
        let mut i: usize = 0;
        while i < MAX_APP_NUM
            invariant
                num_app == kernel_sp.len(),
                num_app <= MAX_APP_NUM,
                i <= MAX_APP_NUM,
                tasks.len() == i,
                forall|j: int| 0 <= j < i && j < num_app ==> is_ready_block(#[trigger] tasks@[j], restore_addr, kernel_sp@[j]),
                forall|j: int| num_app <= j < i ==> {
                    &&& (#[trigger] tasks@[j]).task_status == TaskStatus::UnInit
                    &&& tasks@[j].task_cx.ra == 0
                    &&& tasks@[j].task_cx.sp == 0
                    &&& tasks@[j].task_cx.s_zero()
                },
            decreases MAX_APP_NUM - i,
        {
            if i < num_app {
                let cx = TaskContext::goto_restore(restore_addr, kernel_sp[i]);
                tasks.push(TaskControlBlock { task_cx: cx, task_status: TaskStatus::Ready });
            } else {
                tasks.push(TaskControlBlock { task_cx: TaskContext::zero_init(), task_status: TaskStatus::UnInit });
            }
            i += 1;
        }
        TaskManager { num_app, inner: UPSafeCell::new(TaskManagerInner { tasks, current_task: 0 }) }
    }

    /// Marks the current task `Ready` (it gives up the hart).
    pub fn mark_current_suspended(&mut self)
        requires
            old(self).wf(),
        ensures
            final(self).wf(),
            final(self).app_count() == old(self).app_count(),
            final(self).current() == old(self).current(),
            final(self).tasks() == with_status(old(self).tasks(), old(self).current(), TaskStatus::Ready),
    {
        let inner = self.inner.exclusive_access();
        let current = inner.current_task;
        inner.tasks[current].task_status = TaskStatus::Ready;
    }

    /// Marks the current task `Exited`.
    pub fn mark_current_exited(&mut self)
        requires
            old(self).wf(),
        ensures
            final(self).wf(),
            final(self).app_count() == old(self).app_count(),
            final(self).current() == old(self).current(),
            final(self).tasks() == with_status(old(self).tasks(), old(self).current(), TaskStatus::Exited),
    {
        let inner = self.inner.exclusive_access();
        let current = inner.current_task;
        inner.tasks[current].task_status = TaskStatus::Exited;
    }

    /// The first `Ready` task after the current one in round-robin order,
    /// if any; the manager is left as it was.
    pub fn find_next_task(&mut self) -> (r: Option<usize>)
        requires
            old(self).wf(),
        ensures
            final(self).wf(),
            final(self).app_count() == old(self).app_count(),
            final(self).current() == old(self).current(),
            final(self).tasks() == old(self).tasks(),
            r matches Some(id) ==> next_ready(old(self).statuses(), old(self).current(), old(self).app_count()) == Some(id as int),
            r is None ==> next_ready(old(self).statuses(), old(self).current(), old(self).app_count()) is None,
    {
        let n = self.num_app;
        let inner = self.inner.exclusive_access();
        find_ready(&inner.tasks, inner.current_task, n)
    }

    /// Picks the next task in round-robin order, marks it `Running` and makes
    /// it current; returns the switch to perform. Some loaded application
    /// must be `Ready` (otherwise all applications have completed).
    pub fn run_next_task(&mut self) -> (sw: TaskSwitch)
        requires
            old(self).wf(),
            some_ready(old(self).statuses(), old(self).app_count()),
        ensures
            final(self).wf(),
            final(self).app_count() == old(self).app_count(),
            next_ready(old(self).statuses(), old(self).current(), old(self).app_count()) == Some(sw.next as int),
            sw.current == old(self).current(),
            final(self).current() == sw.next,
            final(self).tasks() == with_status(old(self).tasks(), sw.next as int, TaskStatus::Running),
    {
        proof {
            lemma_next_ready_is_ready(self.statuses(), self.current(), self.app_count());
            lemma_next_ready_none_iff(self.statuses(), self.current(), self.app_count());
        }
        let next = self.find_next_task().unwrap();
        let inner = self.inner.exclusive_access();
        let current = inner.current_task;
        inner.tasks[next].task_status = TaskStatus::Running;
        inner.current_task = next;
        TaskSwitch { current, next }
    }

    /// Marks task 0 `Running` and returns the context to switch to.
    pub fn run_first_task(&mut self) -> (cx: TaskContext)
        requires
            old(self).wf(),
        ensures
            final(self).wf(),
            final(self).app_count() == old(self).app_count(),
            final(self).current() == old(self).current(),
            final(self).tasks() == with_status(old(self).tasks(), 0, TaskStatus::Running),
            cx == old(self).tasks()[0].task_cx,
    {
        let inner = self.inner.exclusive_access();
        inner.tasks[0].task_status = TaskStatus::Running;
        inner.tasks[0].task_cx
    }

    /// The status of task `id`; the manager is left as it was.
    pub fn task_status(&mut self, id: usize) -> (status: TaskStatus)
        requires
            old(self).wf(),
            id < MAX_APP_NUM,
        ensures
            status == old(self).statuses()[id as int],
            final(self).wf(),
            final(self).app_count() == old(self).app_count(),
            final(self).current() == old(self).current(),
            final(self).tasks() == old(self).tasks(),
    {
        let inner = self.inner.exclusive_access();
        inner.tasks[id].task_status
    }

    /// Mutable access to the saved context of task `id`, where a task switch
    /// stores the registers of the task it leaves.
    pub fn task_cx_mut(&mut self, id: usize) -> (cx: &mut TaskContext)
        requires
            old(self).wf(),
            id < MAX_APP_NUM,
        ensures
            *cx == old(self).tasks()[id as int].task_cx,
            final(self).wf(),
            final(self).app_count() == old(self).app_count(),
            final(self).current() == old(self).current(),
            final(self).tasks() == old(self).tasks().update(
                id as int,
                TaskControlBlock { task_status: old(self).tasks()[id as int].task_status, task_cx: *final(cx) },
            ),
    {
        let inner = self.inner.exclusive_access();
        &mut inner.tasks[id].task_cx
    }
}

/// The statuses after one status changed.
proof fn lemma_statuses_with_status(tasks: Seq<TaskControlBlock>, id: int, status: TaskStatus)
    requires
        0 <= id < tasks.len(),
    ensures
        statuses_of(with_status(tasks, id, status)) == statuses_of(tasks).update(id, status),
{
    assert(statuses_of(with_status(tasks, id, status)) =~= statuses_of(tasks).update(id, status));
}

/// The statuses after the current task `cur` became `mark`, then the next
/// task in round-robin order (if any) became `Running`.
pub open spec fn after_switch(tasks: Seq<TaskControlBlock>, cur: int, n: int, mark: TaskStatus) -> Seq<TaskControlBlock> {
    let marked = with_status(tasks, cur, mark);
    match next_ready(statuses_of(marked), cur, n) {
        Some(next) => with_status(marked, next, TaskStatus::Running),
        None => marked,
    }
}

/// The switch chosen after the current task `cur` became `mark`.
pub open spec fn switch_after(tasks: Seq<TaskControlBlock>, cur: int, n: int, mark: TaskStatus) -> Option<TaskSwitch> {
    match next_ready(statuses_of(with_status(tasks, cur, mark)), cur, n) {
        Some(next) => Some(TaskSwitch { current: cur as usize, next: next as usize }),
        None => None,
    }
}

/// The indices of the tasks that have exited.
pub open spec fn exited_tasks(st: Seq<TaskStatus>) -> Set<int> {
    Set::new(|i: int| 0 <= i < st.len() && st[i] == TaskStatus::Exited)
}

/// The set of exited tasks is finite.
pub proof fn lemma_exited_tasks_finite(st: Seq<TaskStatus>)
    ensures
        exited_tasks(st).finite(),
{
    vstd::set_lib::lemma_int_range(0, st.len() as int);
    assert(exited_tasks(st) =~= vstd::set_lib::set_int_range(0, st.len() as int).intersect(exited_tasks(st)));
}

/// Marks the current task with `mark` and moves on to the next task.
fn mark_and_run_next(tm: &mut TaskManager, mark: TaskStatus) -> (r: TaskSwitch)
    requires
        old(tm).wf(),
        mark == TaskStatus::Ready || mark == TaskStatus::Exited,
        some_ready(statuses_of(with_status(old(tm).tasks(), old(tm).current(), mark)), old(tm).app_count()),
    ensures
        final(tm).wf(),
        final(tm).app_count() == old(tm).app_count(),
        Some(r) == switch_after(old(tm).tasks(), old(tm).current(), old(tm).app_count(), mark),
        final(tm).tasks() == after_switch(old(tm).tasks(), old(tm).current(), old(tm).app_count(), mark),
        final(tm).current() == r.next,
        old(tm).only_current_runs() ==> final(tm).only_current_runs(),
        forall|i: int|
            0 <= i < MAX_APP_NUM && i != old(tm).current() && #[trigger] final(tm).statuses()[i] != old(tm).statuses()[i]
                ==> old(tm).statuses()[i] == TaskStatus::Ready && final(tm).statuses()[i] == TaskStatus::Running,
        final(tm).statuses()[old(tm).current()] == mark || final(tm).statuses()[old(tm).current()] == TaskStatus::Running,
{
    let ghost t0 = tm.tasks();
    let ghost cur = tm.current();
    let ghost n = tm.app_count();
    if mark == TaskStatus::Ready {
        tm.mark_current_suspended();
    } else {
        tm.mark_current_exited();
    }
    let ghost t1 = tm.tasks();
    proof {
        lemma_statuses_with_status(t0, cur, mark);
        lemma_next_ready_is_ready(statuses_of(t1), cur, n);
    }
    let r = tm.run_next_task();
    proof {
        lemma_statuses_with_status(t1, r.next as int, TaskStatus::Running);
    }
    r
}

/// Marks the current task `Ready` and switches to the next `Ready` task in
/// round-robin order. Since the suspended task is itself `Ready`, a task is
/// always found when the current task is a loaded application; otherwise
/// some loaded application must be `Ready`.
pub fn suspend_current_and_run_next(tm: &mut TaskManager) -> (r: TaskSwitch)
    requires
        old(tm).wf(),
        old(tm).current() < old(tm).app_count() || some_ready(old(tm).statuses(), old(tm).app_count()),
    ensures
        final(tm).wf(),
        final(tm).app_count() == old(tm).app_count(),
        Some(r) == switch_after(old(tm).tasks(), old(tm).current(), old(tm).app_count(), TaskStatus::Ready),
        final(tm).tasks() == after_switch(old(tm).tasks(), old(tm).current(), old(tm).app_count(), TaskStatus::Ready),
        final(tm).current() == r.next,
        (final(tm).tasks(), final(tm).current()) == suspend_once(old(tm).tasks(), old(tm).current(), old(tm).app_count()),
        old(tm).statuses()[old(tm).current()] != TaskStatus::Exited ==> exited_tasks(final(tm).statuses()) == exited_tasks(
            old(tm).statuses(),
        ),
        old(tm).only_current_runs() ==> final(tm).only_current_runs(),
        forall|i: int|
            0 <= i < MAX_APP_NUM && i != old(tm).current() && #[trigger] final(tm).statuses()[i] != old(tm).statuses()[i]
                ==> old(tm).statuses()[i] == TaskStatus::Ready && final(tm).statuses()[i] == TaskStatus::Running,
        forall|i: int|
            0 <= i < MAX_APP_NUM && i != old(tm).current() && old(tm).statuses()[i] == TaskStatus::Exited
                ==> #[trigger] final(tm).statuses()[i] == TaskStatus::Exited,
{
    proof {
        let cur = tm.current();
        let n = tm.app_count();
        let st1 = statuses_of(with_status(tm.tasks(), cur, TaskStatus::Ready));
        lemma_statuses_with_status(tm.tasks(), cur, TaskStatus::Ready);
        if cur < n {
            assert(st1[cur] == TaskStatus::Ready);
        } else {
            let i = choose|i: int| 0 <= i < n && #[trigger] tm.statuses()[i] == TaskStatus::Ready;
            assert(st1[i] == TaskStatus::Ready);
        }
    }
    let r = mark_and_run_next(tm, TaskStatus::Ready);
    proof {
        assert(old(tm).statuses().len() == MAX_APP_NUM);
        assert(tm.statuses().len() == MAX_APP_NUM);
        if old(tm).statuses()[old(tm).current()] != TaskStatus::Exited {
            assert(exited_tasks(tm.statuses()) =~= exited_tasks(old(tm).statuses()));
        }
    }
    r
}

/// Marks the current task `Exited` and switches to the next `Ready` task in
/// round-robin order; some other loaded application must be `Ready`
/// (otherwise all applications have completed). The exited task is never
/// the one switched to.
pub fn exit_current_and_run_next(tm: &mut TaskManager) -> (r: TaskSwitch)
    requires
        old(tm).wf(),
        exists|i: int|
            0 <= i < old(tm).app_count() && i != old(tm).current() && #[trigger] old(tm).statuses()[i]
                == TaskStatus::Ready,
    ensures
        final(tm).wf(),
        final(tm).app_count() == old(tm).app_count(),
        Some(r) == switch_after(old(tm).tasks(), old(tm).current(), old(tm).app_count(), TaskStatus::Exited),
        final(tm).tasks() == after_switch(old(tm).tasks(), old(tm).current(), old(tm).app_count(), TaskStatus::Exited),
        final(tm).current() == r.next,
        r.next != old(tm).current(),
        final(tm).statuses()[old(tm).current()] == TaskStatus::Exited,
        exited_tasks(final(tm).statuses()) == exited_tasks(old(tm).statuses()).insert(old(tm).current()),
        old(tm).statuses()[old(tm).current()] != TaskStatus::Exited ==> exited_tasks(final(tm).statuses()).len()
            == exited_tasks(old(tm).statuses()).len() + 1,
        old(tm).only_current_runs() ==> final(tm).only_current_runs(),
        forall|i: int|
            0 <= i < MAX_APP_NUM && i != old(tm).current() && #[trigger] final(tm).statuses()[i] != old(tm).statuses()[i]
                ==> old(tm).statuses()[i] == TaskStatus::Ready && final(tm).statuses()[i] == TaskStatus::Running,
        forall|i: int|
            0 <= i < MAX_APP_NUM && i != old(tm).current() && old(tm).statuses()[i] == TaskStatus::Exited
                ==> #[trigger] final(tm).statuses()[i] == TaskStatus::Exited,
{
    let ghost t1 = with_status(tm.tasks(), tm.current(), TaskStatus::Exited);
    proof {
        lemma_statuses_with_status(tm.tasks(), tm.current(), TaskStatus::Exited);
        lemma_next_ready_is_ready(statuses_of(t1), tm.current(), tm.app_count());
        let i = choose|i: int|
            0 <= i < tm.app_count() && i != tm.current() && #[trigger] tm.statuses()[i] == TaskStatus::Ready;
        assert(statuses_of(t1)[i] == TaskStatus::Ready);
    }
    let r = mark_and_run_next(tm, TaskStatus::Exited);
    proof {
        lemma_statuses_with_status(t1, r.next as int, TaskStatus::Running);
        let a = exited_tasks(old(tm).statuses());
        let b = exited_tasks(tm.statuses());
        assert(old(tm).statuses().len() == MAX_APP_NUM);
        assert(tm.statuses().len() == MAX_APP_NUM);
        assert(b =~= a.insert(old(tm).current()));
        lemma_exited_tasks_finite(old(tm).statuses());
    }
    r
}

/// Marks the current task of `tm` `Ready`.
pub fn mark_current_suspended(tm: &mut TaskManager)
    requires
        old(tm).wf(),
    ensures
        final(tm).wf(),
        final(tm).app_count() == old(tm).app_count(),
        final(tm).current() == old(tm).current(),
        final(tm).tasks() == with_status(old(tm).tasks(), old(tm).current(), TaskStatus::Ready),
{
    tm.mark_current_suspended();
}

/// Marks the current task of `tm` `Exited`.
pub fn mark_current_exited(tm: &mut TaskManager)
    requires
        old(tm).wf(),
    ensures
        final(tm).wf(),
        final(tm).app_count() == old(tm).app_count(),
        final(tm).current() == old(tm).current(),
        final(tm).tasks() == with_status(old(tm).tasks(), old(tm).current(), TaskStatus::Exited),
{
    tm.mark_current_exited();
}

/// Switches `tm` to the next `Ready` task in round-robin order; some loaded
/// application must be `Ready`.
pub fn run_next_task(tm: &mut TaskManager) -> (sw: TaskSwitch)
    requires
        old(tm).wf(),
        some_ready(old(tm).statuses(), old(tm).app_count()),
    ensures
        final(tm).wf(),
        final(tm).app_count() == old(tm).app_count(),
        next_ready(old(tm).statuses(), old(tm).current(), old(tm).app_count()) == Some(sw.next as int),
        sw.current == old(tm).current(),
        final(tm).current() == sw.next,
        final(tm).tasks() == with_status(old(tm).tasks(), sw.next as int, TaskStatus::Running),
{
    tm.run_next_task()
}

/// Starts task 0 of `tm`: marks it `Running` and returns its context. When
/// no task ran before and task 0 is current, only the current task runs
/// afterwards.
pub fn run_first_task(tm: &mut TaskManager) -> (cx: TaskContext)
    requires
        old(tm).wf(),
    ensures
        final(tm).wf(),
        final(tm).app_count() == old(tm).app_count(),
        final(tm).current() == old(tm).current(),
        final(tm).tasks() == with_status(old(tm).tasks(), 0, TaskStatus::Running),
        cx == old(tm).tasks()[0].task_cx,
        old(tm).current() == 0 && (forall|i: int| 0 <= i < MAX_APP_NUM ==> old(tm).statuses()[i] != TaskStatus::Running)
            ==> final(tm).only_current_runs(),
{
    let cx = tm.run_first_task();
    proof {
        lemma_statuses_with_status(old(tm).tasks(), 0, TaskStatus::Running);
        if old(tm).current() == 0 && (forall|i: int| 0 <= i < MAX_APP_NUM ==> old(tm).statuses()[i] != TaskStatus::Running) {
            assert forall|i: int|
                0 <= i < tm.statuses().len() && #[trigger] tm.statuses()[i] == TaskStatus::Running implies i == tm.current() by {
                if i != 0 {
                    assert(tm.statuses()[i] == old(tm).statuses()[i]);
                }
            }
        }
    }
    cx
}

/// The task table and current index after one suspension of the current
/// task `cur` (`suspend_current_and_run_next`).
pub open spec fn suspend_once(tasks: Seq<TaskControlBlock>, cur: int, n: int) -> (Seq<TaskControlBlock>, int) {
    (
        after_switch(tasks, cur, n, TaskStatus::Ready),
        match switch_after(tasks, cur, n, TaskStatus::Ready) {
            Some(sw) => sw.next as int,
            None => cur,
        },
    )
}

/// The task table and current index after `k` suspensions in a row.
pub open spec fn suspend_steps(tasks: Seq<TaskControlBlock>, cur: int, n: int, k: nat) -> (Seq<TaskControlBlock>, int)
    decreases k,
{
    if k == 0 {
        (tasks, cur)
    } else {
        let (t1, c1) = suspend_once(tasks, cur, n);
        suspend_steps(t1, c1, n, (k - 1) as nat)
    }
}

/// Two offsets less than `n` apart name different tasks.
proof fn lemma_offsets_differ(x: int, a: int, b: int, n: int)
    requires
        0 <= x,
        0 <= a < b < a + n,
    ensures
        (x + a) % n != (x + b) % n,
{
    vstd::arithmetic::div_mod::lemma_fundamental_div_mod(x + a, n);
    vstd::arithmetic::div_mod::lemma_fundamental_div_mod(x + b, n);
    let qa = (x + a) / n;
    let qb = (x + b) / n;
    if (x + a) % n == (x + b) % n {
        assert(b - a == n * (qb - qa)) by (nonlinear_arith)
            requires
                x + a == n * qa + (x + a) % n,
                x + b == n * qb + (x + b) % n,
                (x + a) % n == (x + b) % n,
        ;
        assert(false) by (nonlinear_arith)
            requires
                b - a == n * (qb - qa),
                0 < b - a < n,
        ;
    }
}

/// When offset `d` names a `Ready` task, the scan from offset `k <= d` stops
/// at some offset between `k` and `d`.
proof fn lemma_first_ready_within(st: Seq<TaskStatus>, cur: int, n: int, k: int, d: int) -> (k0: int)
    requires
        0 < n,
        1 <= k <= d <= n,
        st[(cur + d) % n] == TaskStatus::Ready,
    ensures
        k <= k0 <= d,
        first_ready_from(st, cur, n, k) == Some((cur + k0) % n),
    decreases d - k,
{
    if st[(cur + k) % n] == TaskStatus::Ready {
        k
    } else {
        lemma_first_ready_within(st, cur, n, k + 1, d)
    }
}

/// Suspending again and again reaches the `Ready` task `d` places after the
/// current one within `d` suspensions.
proof fn lemma_suspend_reaches(tasks: Seq<TaskControlBlock>, cur: int, n: int, j: int, d: int) -> (k: nat)
    requires
        tasks.len() == MAX_APP_NUM,
        0 < n <= MAX_APP_NUM,
        0 <= cur < n,
        0 <= j < n,
        1 <= d < n,
        (cur + d) % n == j,
        statuses_of(tasks)[j] == TaskStatus::Ready,
    ensures
        1 <= k <= d,
        suspend_steps(tasks, cur, n, k).1 == j,
        statuses_of(suspend_steps(tasks, cur, n, k).0)[j] == TaskStatus::Running,
    decreases d,
{
    let marked = with_status(tasks, cur, TaskStatus::Ready);
    let st1 = statuses_of(marked);
    lemma_statuses_with_status(tasks, cur, TaskStatus::Ready);
    vstd::arithmetic::div_mod::lemma_mod_multiples_vanish(1, cur, n);
    vstd::arithmetic::div_mod::lemma_small_mod(cur as nat, n as nat);
    lemma_offsets_differ(cur, d, n, n);
    assert(j != cur);
    assert(st1[j] == TaskStatus::Ready);
    let k0 = lemma_first_ready_within(st1, cur, n, 1, d);
    let c1 = (cur + k0) % n;
    vstd::arithmetic::div_mod::lemma_mod_bound(cur + k0, n);
    assert(next_ready(st1, cur, n) == Some(c1));
    let t1 = with_status(marked, c1, TaskStatus::Running);
    lemma_statuses_with_status(marked, c1, TaskStatus::Running);
    assert(suspend_once(tasks, cur, n) == (t1, c1));
    assert(suspend_steps(tasks, cur, n, 1) == suspend_steps(t1, c1, n, 0));
    if k0 == d {
        assert(c1 == j);
        1
    } else {
        lemma_offsets_differ(cur, k0, d, n);
        assert(c1 != j);
        assert(statuses_of(t1)[j] == TaskStatus::Ready);
        let d1 = d - k0;
        vstd::arithmetic::div_mod::lemma_fundamental_div_mod(cur + k0, n);
        let q = (cur + k0) / n;
        assert(c1 + d1 == n * (0 - q) + (cur + d)) by (nonlinear_arith)
            requires
                cur + k0 == n * q + c1,
                d1 == d - k0,
        ;
        vstd::arithmetic::div_mod::lemma_mod_multiples_vanish(0 - q, cur + d, n);
        let k1 = lemma_suspend_reaches(t1, c1, n, j, d1);
        assert(suspend_steps(tasks, cur, n, k1 + 1) == suspend_steps(t1, c1, n, k1));
        (k1 + 1) as nat
    }
}

/// Round robin never starves a task: when the current task `cur` is a
/// loaded application and another loaded application `j` is `Ready`, then
/// after at most `n - 1` suspensions in a row (with no task exiting) `j` is
/// the current task and `Running`.
pub proof fn lemma_round_robin_no_starvation(tasks: Seq<TaskControlBlock>, cur: int, n: int, j: int) -> (k: nat)
    requires
        tasks.len() == MAX_APP_NUM,
        0 < n <= MAX_APP_NUM,
        0 <= cur < n,
        0 <= j < n,
        j != cur,
        statuses_of(tasks)[j] == TaskStatus::Ready,
    ensures
        1 <= k <= n - 1,
        suspend_steps(tasks, cur, n, k).1 == j,
        statuses_of(suspend_steps(tasks, cur, n, k).0)[j] == TaskStatus::Running,
{
    let d = lemma_offset_reaches(cur, n, j);
    if d == n {
        vstd::arithmetic::div_mod::lemma_mod_multiples_vanish(1, cur, n);
        vstd::arithmetic::div_mod::lemma_small_mod(cur as nat, n as nat);
    }
    lemma_suspend_reaches(tasks, cur, n, j, d)
}

} // verus!
