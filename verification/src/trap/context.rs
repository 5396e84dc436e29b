use vstd::prelude::*;

verus! {

/// The `SPP` bit of `sstatus`: the privilege level a trap came from
/// (0 = user, 1 = supervisor).
pub const SSTATUS_SPP: usize = 0x100;

/// The registers of a user program saved on a trap: the 32 general
/// registers, `sstatus` and `sepc` (where the program resumes).
#[derive(Clone, Copy)]
pub struct TrapContext {
    pub x: [usize; 32],
    pub sstatus: usize,
    pub sepc: usize,
}

/// The `sstatus` value `bits` with `SPP` set to user mode, so that returning
/// from the trap enters user mode; all other bits are kept as they are.
pub fn with_user_spp(bits: usize) -> (r: usize)
    ensures
        r == bits & !SSTATUS_SPP,
        r & SSTATUS_SPP == 0,
        r | SSTATUS_SPP == bits | SSTATUS_SPP,
{
    let r = bits & !SSTATUS_SPP;
    assert(r & SSTATUS_SPP == 0 && r | SSTATUS_SPP == bits | SSTATUS_SPP) by (bit_vector)
        requires
            r == bits & !SSTATUS_SPP,
    ;
    r
}

impl TrapContext {
    /// Sets the stack pointer (`x2`).
    pub fn set_sp(&mut self, sp: usize)
        ensures
            final(self).x@ == old(self).x@.update(2, sp),
            final(self).sstatus == old(self).sstatus,
            final(self).sepc == old(self).sepc,
    {
        self.x[2] = sp;
    }

    /// The context in which an application starts: all registers zero but
    /// the stack pointer `sp`, resuming at `entry` in user mode. `sstatus`
    /// is the current (raw) value of the `sstatus` register; only its `SPP`
    /// bit changes.
    pub fn app_init_context(entry: usize, sp: usize, sstatus: usize) -> (cx: Self)
        ensures
            cx.sepc == entry,
            cx.x[2] == sp,
            forall|i: int| 0 <= i < 32 && i != 2 ==> #[trigger] cx.x[i] == 0,
            cx.sstatus == sstatus & !SSTATUS_SPP,
            cx.sstatus & SSTATUS_SPP == 0,
    {
        let mut cx = TrapContext { x: [0; 32], sstatus: with_user_spp(sstatus), sepc: entry };
        cx.set_sp(sp);
        cx
    }
}

} // verus!
