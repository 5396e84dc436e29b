use vstd::prelude::*;
use crate::mem::{PhysMem, copy_range, zero_range};
use crate::trap::context::TrapContext;

verus! {

/// Size in bytes of a user stack.
pub const USER_STACK_SIZE: usize = 4096 * 2;
/// Size in bytes of a kernel stack.
pub const KERNEL_STACK_SIZE: usize = 4096 * 2;
/// The largest number of applications the kernel holds.
pub const MAX_APP_NUM: usize = 16;
/// The address at which applications are linked and run.
pub const APP_BASE_ADDRESS: usize = 0x80400000;
/// The largest size in bytes of one application image.
pub const APP_SIZE_LIMIT: usize = 0x20000;

/// Memory `s` (starting at address `mem_base`) after an application image of
/// `size` bytes at address `src` is loaded at address `dst`: the
/// `APP_SIZE_LIMIT` bytes at `dst` are cleared, then the image is copied.
pub open spec fn load_image(s: Seq<u8>, mem_base: int, src: int, size: int, dst: int) -> Seq<u8> {
    copy_range(zero_range(s, dst - mem_base, APP_SIZE_LIMIT as int), src - mem_base, dst - mem_base, size)
}

/// The applications linked into the kernel, run one after another.
pub struct AppManager {
    num_app: usize,
    current_app: usize,
    app_start: Vec<usize>,
}

impl AppManager {
    /// The number of applications.
    pub closed spec fn app_count(&self) -> int {
        self.num_app as int
    }

    /// The index of the next application to run.
    pub closed spec fn current(&self) -> int {
        self.current_app as int
    }

    /// The start addresses: application `i` occupies the addresses from
    /// `starts()[i]` up to `starts()[i + 1]`.
    pub closed spec fn starts(&self) -> Seq<usize> {
        self.app_start@
    }

    /// There is room for one start address more than the largest number of
    /// applications, and the count fits.
    pub open spec fn wf(&self) -> bool {
        &&& self.starts().len() == MAX_APP_NUM + 1
        &&& 0 <= self.app_count() <= MAX_APP_NUM
        &&& 0 <= self.current()
    }

    /// Whether application `id` can be loaded into `mem`: it exists, its
    /// bounds are ordered, and both the image and the load region are held.
    pub open spec fn can_load(&self, mem: PhysMem, id: int) -> bool {
        let src = self.starts()[id] as int;
        let size = self.starts()[id + 1] - self.starts()[id];
        &&& 0 <= id < self.app_count()
        &&& self.starts()[id] <= self.starts()[id + 1]
        &&& mem.covers(APP_BASE_ADDRESS as int, APP_SIZE_LIMIT as int)
        &&& mem.covers(src, size)
        &&& mem.covers(APP_BASE_ADDRESS as int, size)
    }

    /// The manager for `num_app` applications whose start addresses, followed
    /// by the end address of the last one, are `app_start_raw`. The first
    /// application is the next to run.
    pub fn new(num_app: usize, app_start_raw: &[usize]) -> (am: Self)
        requires
            num_app <= MAX_APP_NUM,
            app_start_raw@.len() == num_app + 1,
        ensures
            am.wf(),
            am.app_count() == num_app,
            am.current() == 0,
            forall|i: int| 0 <= i <= num_app ==> #[trigger] am.starts()[i] == app_start_raw@[i],
            forall|i: int| num_app < i <= MAX_APP_NUM ==> #[trigger] am.starts()[i] == 0,
    {
        let mut app_start: Vec<usize> = Vec::new();
        let mut i: usize = 0;
        while i < MAX_APP_NUM + 1
            invariant
                num_app <= MAX_APP_NUM,
                app_start_raw@.len() == num_app + 1,
                i <= MAX_APP_NUM + 1,
                app_start.len() == i,
                forall|j: int| 0 <= j < i && j <= num_app ==> #[trigger] app_start@[j] == app_start_raw@[j],
                forall|j: int| num_app < j < i ==> #[trigger] app_start@[j] == 0,
            decreases MAX_APP_NUM + 1 - i,
        {
            if i <= num_app {
                app_start.push(app_start_raw[i]);
            } else {
                app_start.push(0);
            }
            i += 1;
        }
        AppManager { num_app, current_app: 0, app_start }
    }

    /// The number of applications.
    pub fn get_num_app(&self) -> (n: usize)
        ensures
            n == self.app_count(),
    {
        self.num_app
    }

    /// Start address `i` (the end of the last application when `i` is the
    /// number of applications).
    pub fn get_app_start(&self, i: usize) -> (a: usize)
        requires
            self.wf(),
            i <= MAX_APP_NUM,
        ensures
            a == self.starts()[i as int],
    {
        self.app_start[i]
    }

    /// Loads application `app_id` into `mem`: clears the `APP_SIZE_LIMIT`
    /// bytes at `APP_BASE_ADDRESS`, then copies the application's image
    /// there. When the image fits and lies outside that region, the region
    /// holds exactly the image followed by zeros and nothing else changes.
    pub fn load_app(&self, mem: &mut PhysMem, app_id: usize)
        requires
            self.wf(),
            self.can_load(*old(mem), app_id as int),
        ensures
            final(mem).base == old(mem).base,
            final(mem).bytes@ == load_image(
                old(mem).bytes@,
                old(mem).base as int,
                self.starts()[app_id as int] as int,
                self.starts()[app_id + 1] - self.starts()[app_id as int],
                APP_BASE_ADDRESS as int,
            ),
            ({
                let src = self.starts()[app_id as int] as int;
                let size = self.starts()[app_id + 1] - self.starts()[app_id as int];
                size <= APP_SIZE_LIMIT && (src + size <= APP_BASE_ADDRESS || APP_BASE_ADDRESS + APP_SIZE_LIMIT <= src)
                    ==> {
                    &&& forall|j: int| 0 <= j < size ==> #[trigger] final(mem).byte_at(APP_BASE_ADDRESS + j)
                        == old(mem).byte_at(src + j)
                    &&& forall|j: int| size <= j < APP_SIZE_LIMIT ==> #[trigger] final(mem).byte_at(APP_BASE_ADDRESS + j) == 0
                    &&& forall|a: int|
                        old(mem).covers(a, 1) && !(APP_BASE_ADDRESS <= a < APP_BASE_ADDRESS + APP_SIZE_LIMIT)
                            ==> #[trigger] final(mem).byte_at(a) == old(mem).byte_at(a)
                }
            }),
    {
        mem.fill_zero(APP_BASE_ADDRESS, APP_SIZE_LIMIT);
        let src = self.app_start[app_id];
        let size = self.app_start[app_id + 1] - self.app_start[app_id];
        mem.copy_bytes(src, APP_BASE_ADDRESS, size);
    }

    /// The index of the next application to run.
    pub fn get_current_app(&self) -> (id: usize)
        ensures
            id == self.current(),
    {
        self.current_app
    }

    /// Moves on to the next application.
    pub fn move_to_next_app(&mut self)
        requires
            old(self).current() < usize::MAX,
        ensures
            final(self).current() == old(self).current() + 1,
            final(self).app_count() == old(self).app_count(),
            final(self).starts() == old(self).starts(),
    {
        self.current_app += 1;
    }
}

/// A kernel stack: `KERNEL_STACK_SIZE` bytes from address `base`.
pub struct KernelStack {
    pub base: usize,
}

/// A user stack: `USER_STACK_SIZE` bytes from address `base`.
pub struct UserStack {
    pub base: usize,
}

/// A trap context placed on a kernel stack at address `addr`.
#[derive(Clone, Copy)]
pub struct PushedContext {
    pub addr: usize,
    pub cx: TrapContext,
}

impl KernelStack {
    /// The initial stack pointer: the end of the stack (stacks grow down).
    pub fn get_sp(&self) -> (sp: usize)
        requires
            self.base + KERNEL_STACK_SIZE <= usize::MAX,
        ensures
            sp == self.base + KERNEL_STACK_SIZE,
    {
        self.base + KERNEL_STACK_SIZE
    }

    /// Places `cx` at the top of the stack: directly below the initial stack
    /// pointer, one trap context deep.
    pub fn push_context(&self, cx: TrapContext) -> (p: PushedContext)
        requires
            self.base + KERNEL_STACK_SIZE <= usize::MAX,
            size_of::<TrapContext>() <= self.base + KERNEL_STACK_SIZE,
        ensures
            p.addr == self.base + KERNEL_STACK_SIZE - size_of::<TrapContext>(),
            p.cx == cx,
    {
        let addr = self.get_sp() - core::mem::size_of::<TrapContext>();
        PushedContext { addr, cx }
    }
}

impl UserStack {
    /// The initial stack pointer: the end of the stack.
    pub fn get_sp(&self) -> (sp: usize)
        requires
            self.base + USER_STACK_SIZE <= usize::MAX,
        ensures
            sp == self.base + USER_STACK_SIZE,
    {
        self.base + USER_STACK_SIZE
    }
}

/// Runs the next application of the batch: loads it into `mem`, moves on,
/// and returns the trap context (placed on `kernel_stack`) from which it
/// starts at `APP_BASE_ADDRESS` in user mode on `user_stack`; `sstatus` is
/// the current value of the `sstatus` register. An application must be left
/// to run (otherwise all applications have completed).
pub fn run_next_app(
    app_manager: &mut AppManager,
    mem: &mut PhysMem,
    kernel_stack: &KernelStack,
    user_stack: &UserStack,
    sstatus: usize,
) -> (p: PushedContext)
    requires
        old(app_manager).wf(),
        old(app_manager).current() < old(app_manager).app_count(),
        old(app_manager).can_load(*old(mem), old(app_manager).current()),
        kernel_stack.base + KERNEL_STACK_SIZE <= usize::MAX,
        size_of::<TrapContext>() <= kernel_stack.base + KERNEL_STACK_SIZE,
        user_stack.base + USER_STACK_SIZE <= usize::MAX,
    ensures
        ({
            let id = old(app_manager).current();
            let starts = old(app_manager).starts();
            &&& final(mem).base == old(mem).base
            &&& final(mem).bytes@ == load_image(
                old(mem).bytes@,
                old(mem).base as int,
                starts[id] as int,
                starts[id + 1] - starts[id],
                APP_BASE_ADDRESS as int,
            )
            &&& final(app_manager).current() == id + 1
        }),
        p.addr == kernel_stack.base + KERNEL_STACK_SIZE - size_of::<TrapContext>(),
        p.cx.sepc == APP_BASE_ADDRESS,
        p.cx.x[2] == user_stack.base + USER_STACK_SIZE,
        forall|i: int| 0 <= i < 32 && i != 2 ==> #[trigger] p.cx.x[i] == 0,
        p.cx.sstatus == sstatus & !crate::trap::context::SSTATUS_SPP,
        final(app_manager).wf(),
        final(app_manager).app_count() == old(app_manager).app_count(),
        final(app_manager).starts() == old(app_manager).starts(),
{
    let current_app = app_manager.get_current_app();
    app_manager.load_app(mem, current_app);
    app_manager.move_to_next_app();
    let cx = TrapContext::app_init_context(APP_BASE_ADDRESS, user_stack.get_sp(), sstatus);
    kernel_stack.push_context(cx)
}

} // verus!
