use vstd::prelude::*;

verus! {

/// The callee-saved registers that a task switch saves and restores:
/// the return address, the stack pointer and `s0`..`s11`.
#[derive(Clone, Copy)]
pub struct TaskContext {
    pub ra: usize,
    pub sp: usize,
    pub s: [usize; 12],
}

impl TaskContext {
    /// Whether every saved `s` register is zero.
    pub open spec fn s_zero(&self) -> bool {
        forall|i: int| 0 <= i < 12 ==> #[trigger] self.s[i] == 0
    }

    /// A context whose registers are all zero.
    pub fn zero_init() -> (cx: Self)
        ensures
            cx.ra == 0,
            cx.sp == 0,
            cx.s_zero(),
            forall|i: int| 0 <= i < 12 ==> #[trigger] cx.s[i] == 0,
    {
        TaskContext { ra: 0, sp: 0, s: [0; 12] }
    }

    /// A context that, once switched to, returns into `restore_addr` (the
    /// trap-return routine) with its stack pointer at `kstack_ptr`, where a
    /// trap context for the task has been placed.
    pub fn goto_restore(restore_addr: usize, kstack_ptr: usize) -> (cx: Self)
        ensures
            cx.ra == restore_addr,
            cx.sp == kstack_ptr,
            cx.s_zero(),
            forall|i: int| 0 <= i < 12 ==> #[trigger] cx.s[i] == 0,
    {
        TaskContext { ra: restore_addr, sp: kstack_ptr, s: [0; 12] }
    }
}

} // verus!
